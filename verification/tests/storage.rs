use pypi_index::order;
use pypi_index::storage::{
    find_project_packages, get_projects, packages_dir, read_metadata, scan_packages, sidecar_path, DirEntry,
    PackageMetadata, PkgFile,
};

fn entry(name: &str) -> DirEntry {
    DirEntry { file_name: Some(name.to_string()), is_file: true, path: format!("/p/{}", name) }
}

fn sample() -> Vec<PkgFile> {
    let mut entries = vec![
        entry("Foo_Bar-1.0.tar.gz"),
        entry("foo.bar-2.0-py3-none-any.whl"),
        entry("abc-0.1.zip"),
        entry("foo.bar-2.0-py3-none-any.whl.metadata.json"),
        entry(".hidden-1.0.zip"),
        entry("notes.txt"),
    ];
    entries.push(DirEntry { file_name: Some("dir-1.0.zip".to_string()), is_file: false, path: "/p/dir-1.0.zip".to_string() });
    entries.push(DirEntry { file_name: None, is_file: true, path: "/p/?".to_string() });
    scan_packages(&entries)
}

#[test]
fn scanning() {
    let found = sample();
    let names: Vec<&str> = found.iter().map(|p| p.relfn.as_str()).collect();
    assert_eq!(names, ["Foo_Bar-1.0.tar.gz", "foo.bar-2.0-py3-none-any.whl", "abc-0.1.zip"]);
    assert_eq!(found[0].pkgname, "Foo_Bar");
    assert_eq!(found[0].pkgname_norm, "foo-bar");
    assert_eq!(found[0].version, "1.0");
    assert_eq!(found[0].full_path, "/p/Foo_Bar-1.0.tar.gz");
    assert!(scan_packages(&Vec::new()).is_empty());
}

#[test]
fn sidecars_are_no_packages() {
    let path = sidecar_path("/p/abc-0.1.zip");
    assert_eq!(path, "/p/abc-0.1.zip.metadata.json");
    assert!(scan_packages(&vec![entry("abc-0.1.zip.metadata.json")]).is_empty());
    assert!(scan_packages(&vec![entry("a-1.whl.metadata.json"), entry("a-1.zip.metadata.json")]).is_empty());
}

#[test]
fn finding_by_any_spelling() {
    let all = sample();
    for name in ["foo-bar", "FOO.BAR", "foo__bar"] {
        let found = find_project_packages(name, &all);
        assert_eq!(found.len(), 2);
        assert_eq!(found[0].version, "1.0");
        assert_eq!(found[1].version, "2.0");
    }
    assert!(find_project_packages("foobar", &all).is_empty());
}

#[test]
fn listing_projects() {
    assert_eq!(get_projects(&sample()), ["abc", "foo-bar"]);
    assert!(get_projects(&Vec::new()).is_empty());
}

#[test]
fn listed_projects_have_packages() {
    let all = sample();
    for project in get_projects(&all) {
        assert!(!find_project_packages(&project, &all).is_empty());
    }
}

#[test]
fn packages_directory() {
    assert_eq!(packages_dir(None), "/data/packages");
    assert_eq!(packages_dir(Some("/x".to_string())), "/x");
}

#[test]
fn metadata_of_a_package() {
    let m = read_metadata(None);
    assert!(m.name.is_none() && m.version.is_none() && m.summary.is_none() && m.author.is_none());
    assert!(m.license.is_none() && m.requires_python.is_none());
    assert!(m.classifiers.is_none() && m.requires_dist.is_none());
    let given = PackageMetadata { summary: Some("s".to_string()), ..PackageMetadata::default() };
    assert_eq!(read_metadata(Some(given)).summary.as_deref(), Some("s"));
}

#[test]
fn cloning_metadata() {
    let m = PackageMetadata {
        name: Some("n".to_string()),
        version: Some("1".to_string()),
        author: None,
        classifiers: Some(vec!["c".to_string(), "d".to_string()]),
        ..PackageMetadata::default()
    };
    let c = m.clone();
    assert_eq!((c.name, c.version, c.author), (m.name, m.version, m.author));
    assert_eq!((c.classifiers, c.requires_dist), (m.classifiers, m.requires_dist));
}

#[test]
fn cloning_a_package() {
    let p = sample().remove(0);
    let q = p.clone();
    assert_eq!((q.pkgname, q.pkgname_norm, q.version), (p.pkgname, p.pkgname_norm, p.version));
    assert_eq!((q.relfn, q.full_path), (p.relfn, p.full_path));
}

fn keys(texts: &[&str]) -> Vec<Vec<char>> {
    texts.iter().map(|t| t.chars().collect()).collect()
}

#[test]
fn sorting_is_stable() {
    assert_eq!(order::sort_positions(&keys(&["b", "a", "b", "", "a"]), false), [3, 1, 4, 0, 2]);
    assert_eq!(order::sort_positions(&keys(&["b", "a", "b", "", "a"]), true), [0, 2, 1, 4, 3]);
    assert!(order::sort_positions(&Vec::new(), true).is_empty());
}

#[test]
fn sorting_agrees_with_std() {
    let texts = ["10", "9", "1.0", "1.0-1", "é", "z", "Z", "", "a", "aa", "\u{10000}", "\u{ffff}"];
    let mut wanted: Vec<&str> = texts.to_vec();
    wanted.sort();
    let got: Vec<&str> = order::sort_positions(&keys(&texts), false).iter().map(|i| texts[*i]).collect();
    assert_eq!(got, wanted);
    let mut twice = texts.to_vec();
    twice.extend(texts);
    let distinct = order::sorted_distinct(&keys(&twice));
    assert_eq!(distinct, wanted);
}
