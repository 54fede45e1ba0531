use pypi_index::core_metadata::parse_core_metadata;
use pypi_index::digests::digest_hex;
use pypi_index::pypi_push::{FileKind, PyDistFile};
use pypi_index::warehouse::{is_success, upload_request, upload_verdict, FormError, UploadRequest};

fn dist(raw: &str, path: &str, kind: FileKind) -> PyDistFile {
    PyDistFile { path: path.to_string(), bytes: b"abc".to_vec(), kind, metadata: parse_core_metadata(raw) }
}

fn request(raw: &str) -> UploadRequest {
    upload_request(&dist(raw, "/p/foo-1.0.tar.gz", FileKind::Sdist)).unwrap()
}

#[test]
fn digests_of_abc() {
    let (md5, sha256) = digest_hex(b"abc");
    assert_eq!(md5, "900150983cd24fb0d6963f7d28e17f72");
    assert_eq!(sha256, "ba7816bf8f01cfea414140de5dae2223b00361a396177a9cb410ff61f20015ad");
}

#[test]
fn smallest_form() {
    let r = request("Name: foo\nVersion: 1.0\n");
    let wanted = [
        (":action", "file_upload"),
        ("protocol_version", "1"),
        ("metadata_version", "2.1"),
        ("name", "foo"),
        ("version", "1.0"),
        ("filetype", "sdist"),
        ("pyversion", "source"),
        ("md5_digest", "900150983cd24fb0d6963f7d28e17f72"),
        ("sha256_digest", "ba7816bf8f01cfea414140de5dae2223b00361a396177a9cb410ff61f20015ad"),
    ];
    let got: Vec<(&str, &str)> = r.fields.iter().map(|(n, v)| (n.as_str(), v.as_str())).collect();
    assert_eq!(got, wanted);
    assert_eq!((r.filename.as_str(), r.name.as_str(), r.version.as_str()), ("foo-1.0.tar.gz", "foo", "1.0"));
}

#[test]
fn full_form() {
    let raw = "Metadata-Version: 2.3\nName: foo\nVersion: 1.0\nKeywords: k\nRequires-Python: >=3\n\
        Description-Content-Type: text/plain\nLicense: MIT\nMaintainer-email: me\nMaintainer: m\nAuthor-email: ae\n\
        Author: a\nHome-page: h\nSummary: s\nProject-URL: u\nRequires-Dist: d1\nRequires-Dist: d2\nClassifier: c1\n\
        Classifier: c2\nPlatform: p1\nPlatform: p2\nDynamic: y\nSupported-Platform: sp\nObsoletes-Dist: o\n\
        Provides-Dist: pd\n\nbody";
    let kind = FileKind::Wheel { python_tag: "py3".to_string() };
    let r = upload_request(&dist(raw, "foo-1.0-py3-none-any.whl", kind)).unwrap();
    let got: Vec<(&str, &str)> = r.fields.iter().map(|(n, v)| (n.as_str(), v.as_str())).collect();
    assert_eq!(got[2], ("metadata_version", "2.3"));
    assert_eq!(got[5..7], [("filetype", "bdist_wheel"), ("pyversion", "py3")]);
    let rest = [
        ("summary", "s"),
        ("home_page", "h"),
        ("author", "a"),
        ("author_email", "ae"),
        ("maintainer", "m"),
        ("maintainer_email", "me"),
        ("license", "MIT"),
        ("description_content_type", "text/plain"),
        ("requires_python", ">=3"),
        ("keywords", "k"),
        ("description", "body"),
        ("classifiers", "c1"),
        ("classifiers", "c2"),
        ("requires_dist", "d1"),
        ("requires_dist", "d2"),
        ("project_urls", "u"),
        ("provides_dist", "pd"),
        ("obsoletes_dist", "o"),
        ("platform", "p1"),
        ("platform", "p2"),
        ("supported_platform", "sp"),
        ("dynamic", "y"),
    ];
    assert_eq!(got[9..], rest);
}

#[test]
fn forms_that_cannot_be_made() {
    let e = upload_request(&dist("Version: 1", "a", FileKind::Sdist)).unwrap_err();
    assert_eq!(e, FormError::MissingName);
    assert_eq!(e.message(), "distribution metadata is missing Name");
    let e = upload_request(&dist("Name: a", "a", FileKind::Sdist)).unwrap_err();
    assert_eq!(e, FormError::MissingVersion);
    assert_eq!(e.message(), "distribution metadata is missing Version");
    let e = upload_request(&dist("Name: a\nVersion: 1", "/p/..", FileKind::Sdist)).unwrap_err();
    assert_eq!(e, FormError::NoFilename);
    assert_eq!(e.message(), "distribution file has no filename");
}

#[test]
fn verdicts() {
    let r = request("Name: foo\nVersion: 1.0\n");
    assert_eq!(upload_verdict(&r, 200, "200 OK", ""), Ok(true));
    assert_eq!(upload_verdict(&r, 299, "299", "already exists"), Ok(true));
    assert_eq!(upload_verdict(&r, 400, "400 Bad Request", "File ALREADY Exists."), Ok(false));
    assert_eq!(
        upload_verdict(&r, 400, "400 Bad Request", " bad \n"),
        Err("PyPI upload of foo@1.0 failed: HTTP 400 Bad Request - bad".to_string())
    );
    assert_eq!(
        upload_verdict(&r, 409, "409 Conflict", "already exists"),
        Err("PyPI upload of foo@1.0 failed: HTTP 409 Conflict - already exists".to_string())
    );
    assert!(!is_success(199) && is_success(200) && is_success(299) && !is_success(300));
}
