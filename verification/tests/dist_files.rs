use pypi_index::pypi_push::{
    distribution_format, is_pkg_info, read_dist_file, sdist_with_pkg_info, wheel_python_tag, wheel_with_metadata,
    DistError, DistFormat, FileKind, PyDistFile,
};
use std::io::Write;

fn tar_gz(files: &[(&str, &[u8])]) -> Vec<u8> {
    let gz = flate2::write::GzEncoder::new(Vec::new(), flate2::Compression::default());
    let mut builder = tar::Builder::new(gz);
    for (path, data) in files {
        let mut header = tar::Header::new_gnu();
        header.set_size(data.len() as u64);
        header.set_mode(0o644);
        header.set_cksum();
        builder.append_data(&mut header, path, *data).unwrap();
    }
    builder.into_inner().unwrap().finish().unwrap()
}

fn zip_file(files: &[(&str, &[u8])]) -> Vec<u8> {
    let mut writer = zip::ZipWriter::new(std::io::Cursor::new(Vec::new()));
    for (path, data) in files {
        writer.start_file(*path, zip::write::SimpleFileOptions::default()).unwrap();
        writer.write_all(data).unwrap();
    }
    writer.finish().unwrap().into_inner()
}

fn name_of(dist: &PyDistFile) -> String {
    dist.metadata.single.get("Name").unwrap().to_string()
}

fn error_of(r: Result<PyDistFile, DistError>) -> DistError {
    match r {
        Ok(_) => panic!("read after all"),
        Err(e) => e,
    }
}

#[test]
fn reading_a_source_archive() {
    let bytes = tar_gz(&[
        ("foo-1.0/setup.py", b"x"),
        ("foo-1.0/foo.egg-info/PKG-INFO", b"Name: inner\n"),
        ("foo-1.0/PKG-INFO", b"Name: foo\nVersion: 1.0\n"),
    ]);
    let dist = read_dist_file("/p/foo-1.0.tar.gz", Ok(bytes.clone())).unwrap_or_else(|e| panic!("{}", e.message()));
    assert!(matches!(dist.kind, FileKind::Sdist));
    assert_eq!(name_of(&dist), "foo");
    assert_eq!(dist.path, "/p/foo-1.0.tar.gz");
    assert_eq!(dist.bytes, bytes);
}

#[test]
fn first_pkg_info_counts() {
    let bytes = tar_gz(&[("a/PKG-INFO", b"Name: one\n"), ("b/PKG-INFO", b"Name: two\n")]);
    let dist = read_dist_file("x.tar.gz", Ok(bytes)).ok().unwrap();
    assert_eq!(name_of(&dist), "one");
}

#[test]
fn source_archive_without_metadata() {
    let bytes = tar_gz(&[("PKG-INFO", b"Name: x\n"), ("a/b/PKG-INFO", b"Name: x\n")]);
    let e = error_of(read_dist_file("x.tar.gz", Ok(bytes)));
    assert!(matches!(e, DistError::NoPkgInfo));
    assert_eq!(e.message(), "PKG-INFO not found inside sdist (malformed archive?)");
}

#[test]
fn broken_source_archives() {
    let e = error_of(read_dist_file("x.tar.gz", Ok(b"not gzip at all".to_vec())));
    assert!(matches!(e, DistError::Archive(_)));
    let e = error_of(read_dist_file("x.tar.gz", Ok(tar_gz(&[("a/PKG-INFO", &[0xff, 0xfe])]))));
    assert!(matches!(e, DistError::Archive(_)));
}

#[test]
fn reading_a_wheel() {
    let bytes = zip_file(&[
        ("foo/__init__.py", b""),
        ("foo-1.0.dist-info/METADATA", b"Name: foo\nVersion: 1.0\nRequires-Dist: bar\n\ntext"),
        ("foo-1.0.dist-info/RECORD", b""),
    ]);
    let path = "/p/foo-1.0-py3-none-any.whl";
    let dist = read_dist_file(path, Ok(bytes.clone())).unwrap_or_else(|e| panic!("{}", e.message()));
    match &dist.kind {
        FileKind::Wheel { python_tag } => assert_eq!(python_tag, "py3"),
        FileKind::Sdist => panic!("not a wheel"),
    }
    assert_eq!(name_of(&dist), "foo");
    assert_eq!(dist.metadata.description.as_deref(), Some("text"));
    assert_eq!(dist.bytes, bytes);
}

#[test]
fn first_wheel_metadata_counts() {
    let bytes = zip_file(&[("a.dist-info/METADATA", b"Name: one\n"), ("b.dist-info/METADATA", b"Name: two\n")]);
    let dist = read_dist_file("a-1-py3-none-any.whl", Ok(bytes)).ok().unwrap();
    assert_eq!(name_of(&dist), "one");
}

#[test]
fn wheels_that_cannot_be_read() {
    let e = error_of(read_dist_file("a-1-py3-none-any.whl", Ok(b"no zip".to_vec())));
    assert!(matches!(e, DistError::Archive(_)));
    let e = error_of(read_dist_file("a-1-py3-none-any.whl", Ok(zip_file(&[("METADATA", b"Name: x\n")]))));
    assert!(matches!(e, DistError::NoMetadata));
    assert_eq!(e.message(), "METADATA not found inside wheel (malformed archive?)");
    let good = zip_file(&[("a.dist-info/METADATA", b"Name: x\n")]);
    let e = error_of(read_dist_file("/p/a-1-py3.whl", Ok(good)));
    assert_eq!(e.message(), "wheel filename 'a-1-py3' does not match the wheel spec");
    let e = error_of(read_dist_file("a.whl", Ok(zip_file(&[("a.dist-info/METADATA", &[0xff])]))));
    assert!(matches!(e, DistError::Archive(_)));
}

#[test]
fn formats_by_ending() {
    assert_eq!(distribution_format("a-1.tar.gz"), Some(DistFormat::Sdist));
    assert_eq!(distribution_format("a-1-py3-none-any.whl"), Some(DistFormat::Wheel));
    assert_eq!(distribution_format("a-1.zip"), None);
}

#[test]
fn ending_decides_before_contents() {
    let e = error_of(read_dist_file("/p/a-1.zip", Err("gone".to_string())));
    assert_eq!(e.message(), "unsupported distribution file: /p/a-1.zip");
    let e = error_of(read_dist_file("/p/a-1.tar.gz", Err("gone".to_string())));
    assert!(matches!(e, DistError::Read(_)));
    assert_eq!(e.message(), "gone");
    let e = error_of(read_dist_file("/p/a-1-py3-none-any.whl", Err("gone".to_string())));
    assert_eq!(e.message(), "gone");
}

#[test]
fn python_tags() {
    assert_eq!(wheel_python_tag("/d/a-1-cp311-abi3-linux_x86_64.whl").ok().as_deref(), Some("cp311"));
    assert_eq!(wheel_python_tag("a-1-7build-py2.py3-none-any.whl").ok().as_deref(), Some("py2.py3"));
    assert!(matches!(wheel_python_tag("a-1-py3-none.whl"), Err(DistError::WheelName(_))));
    assert!(matches!(wheel_python_tag(".whl"), Err(DistError::WheelName(_))));
    let e = wheel_python_tag("/").err().unwrap();
    assert!(matches!(e, DistError::NoWheelName));
    assert_eq!(e.message(), "wheel filename is not valid UTF-8");
}

#[test]
fn metadata_files_in_source_archives() {
    assert!(is_pkg_info("foo-1.0/PKG-INFO"));
    assert!(is_pkg_info("./PKG-INFO"));
    assert!(!is_pkg_info("PKG-INFO"));
    assert!(!is_pkg_info("./foo/PKG-INFO"));
    assert!(!is_pkg_info("foo/pkg-info"));
}

#[test]
fn distributions_from_given_metadata() {
    let d = sdist_with_pkg_info("x", vec![1], Some("Name: a".to_string())).ok().unwrap();
    assert_eq!(name_of(&d), "a");
    assert!(matches!(sdist_with_pkg_info("x", vec![1], None), Err(DistError::NoPkgInfo)));
    let d = wheel_with_metadata("a-1-py3-none-any.whl", vec![], Some("Name: b".to_string())).ok().unwrap();
    assert_eq!(name_of(&d), "b");
    assert!(matches!(wheel_with_metadata("x", vec![], None), Err(DistError::NoMetadata)));
}
