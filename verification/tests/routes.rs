use pypi_index::auth::gate;
use pypi_index::extractors::BasicAuth;
use pypi_index::routes::{
    details_path, download, json_info, latest_release, package_details, project_releases, public_base_url,
    should_sync_to_public_registry, simple_index, simple_project, unauthorized, welcome, PageOrRedirect,
};
use pypi_index::storage::{scan_packages, DirEntry, PackageMetadata, PkgFile};

fn auth() -> BasicAuth {
    BasicAuth { username: "u".to_string() }
}

fn packages(names: &[&str]) -> Vec<PkgFile> {
    let entries: Vec<DirEntry> = names
        .iter()
        .map(|n| DirEntry { file_name: Some(n.to_string()), is_file: true, path: format!("/p/{}", n) })
        .collect();
    scan_packages(&entries)
}

#[test]
fn asking_for_credentials() {
    let u = unauthorized();
    assert_eq!(u.status(), 401);
    assert_eq!(u.challenge(), "Basic realm=\"pypi\"");
}

#[test]
fn projects_to_sync() {
    let list = Some(" foo, Bar ,,baz".to_string());
    assert!(should_sync_to_public_registry("foo", &list));
    assert!(should_sync_to_public_registry("Bar", &list));
    assert!(should_sync_to_public_registry("", &list));
    assert!(!should_sync_to_public_registry("bar", &list));
    assert!(!should_sync_to_public_registry("fo", &list));
    assert!(!should_sync_to_public_registry("foo", &None));
}

#[test]
fn index_of_projects() {
    let page = simple_index(auth(), &packages(&["b-1.zip", "A_x-1.zip", "a.X-2.zip"]));
    assert_eq!(page.projects, ["a-x", "b"]);
}

#[test]
fn page_of_a_project() {
    let all = packages(&["foo-2.0.zip", "other-1.zip", "Foo-1.0.zip", "foo-10.zip"]);
    let page = simple_project("FOO".to_string(), auth(), &all).unwrap();
    assert_eq!(page.project, "FOO");
    let names: Vec<&str> = page.links.iter().map(|l| l.filename.as_str()).collect();
    assert_eq!(names, ["Foo-1.0.zip", "foo-10.zip", "foo-2.0.zip"]);
    assert_eq!(page.links[0].href, "../../packages/Foo-1.0.zip");
    assert_eq!(simple_project("none".to_string(), auth(), &all).unwrap_err(), 404);
}

#[test]
fn downloads() {
    let d = download("a-1.whl".to_string(), auth(), "/data").unwrap();
    assert_eq!((d.path.as_str(), d.filename.as_str()), ("/data/a-1.whl", "a-1.whl"));
    assert_eq!(d.content_disposition(), "attachment; filename=\"a-1.whl\"");
    assert!(download("../a".to_string(), auth(), "/data").is_none());
    assert!(download("a\\b".to_string(), auth(), "/data").is_none());
}

#[test]
fn base_urls() {
    assert_eq!(public_base_url(None), "http://localhost:8080/");
    assert_eq!(public_base_url(Some("https://x".to_string())), "https://x/");
    assert_eq!(public_base_url(Some("https://x/".to_string())), "https://x/");
    assert_eq!(public_base_url(Some(String::new())), "/");
}

fn sample_releases(newest_first: bool) -> Vec<PkgFile> {
    let all = packages(&["foo-1.0.zip", "foo-9.zip", "bar-3.zip", "foo-10.zip", "foo-9.tar.gz"]);
    project_releases("foo", &all, newest_first)
}

#[test]
fn releases_by_version() {
    let up: Vec<String> = sample_releases(false).into_iter().map(|p| p.relfn).collect();
    assert_eq!(up, ["foo-1.0.zip", "foo-10.zip", "foo-9.zip", "foo-9.tar.gz"]);
    let down: Vec<String> = sample_releases(true).into_iter().map(|p| p.relfn).collect();
    assert_eq!(down, ["foo-9.zip", "foo-9.tar.gz", "foo-10.zip", "foo-1.0.zip"]);
    assert_eq!(latest_release(&sample_releases(false), false).unwrap().relfn, "foo-9.tar.gz");
    assert_eq!(latest_release(&sample_releases(true), true).unwrap().relfn, "foo-9.zip");
    assert!(latest_release(&Vec::new(), true).is_none());
}

#[test]
fn information_in_json() {
    let meta = PackageMetadata {
        summary: Some("s".to_string()),
        classifiers: Some(vec!["c".to_string()]),
        ..PackageMetadata::default()
    };
    let info = json_info("Foo".to_string(), &sample_releases(false), meta).unwrap();
    assert_eq!((info.name.as_str(), info.version.as_str()), ("Foo", "9"));
    assert_eq!(info.summary.as_deref(), Some("s"));
    assert_eq!(info.author, None);
    assert_eq!(info.classifiers, Some(vec!["c".to_string()]));
    assert_eq!(info.releases.len(), 4);
    assert_eq!((info.releases[1].filename.as_str(), info.releases[1].version.as_str()), ("foo-10.zip", "10"));
    let named = PackageMetadata { name: Some("FOO".to_string()), ..PackageMetadata::default() };
    assert_eq!(json_info("Foo".to_string(), &sample_releases(false), named).unwrap().name, "FOO");
    assert_eq!(json_info("x".to_string(), &Vec::new(), PackageMetadata::default()).unwrap_err(), 404);
}

#[test]
fn details_of_a_project() {
    assert_eq!(details_path("foo"), "/details/foo");
    let meta = PackageMetadata {
        author: Some("a".to_string()),
        requires_dist: Some(vec!["bar".to_string()]),
        ..PackageMetadata::default()
    };
    let page = package_details(Ok(()), "foo".to_string(), &sample_releases(true), meta, Some("http://x".to_string()));
    match page {
        PageOrRedirect::Page(p) => {
            assert_eq!((p.name.as_str(), p.version.as_str(), p.author.as_str()), ("foo", "9", "a"));
            assert_eq!((p.summary.as_str(), p.license.as_str()), ("", ""));
            assert_eq!(p.requires_dist, ["bar"]);
            assert!(p.classifiers.is_empty());
            assert_eq!(p.releases[0].filename, "foo-9.zip");
            assert_eq!(p.releases.len(), 4);
            assert_eq!(p.index_url, "http://x/simple/");
        }
        PageOrRedirect::Redirect(r) => panic!("{:?}", r),
    }
}

#[test]
fn details_of_nothing() {
    let named = PackageMetadata { name: Some("other".to_string()), ..PackageMetadata::default() };
    match package_details(Ok(()), "foo".to_string(), &Vec::new(), named, None) {
        PageOrRedirect::Page(p) => {
            assert_eq!((p.name.as_str(), p.version.as_str()), ("foo", ""));
            assert!(p.releases.is_empty() && p.classifiers.is_empty() && p.requires_dist.is_empty());
            assert_eq!(p.index_url, "http://localhost:8080/simple/");
        }
        PageOrRedirect::Redirect(r) => panic!("{:?}", r),
    }
    let away = gate(false, "/details/foo", "https://iam".to_string(), &None);
    match package_details(away, "foo".to_string(), &Vec::new(), PackageMetadata::default(), None) {
        PageOrRedirect::Page(p) => panic!("{:?}", p),
        PageOrRedirect::Redirect(r) => assert_eq!(r.location, "https://iam"),
    }
}

#[test]
fn welcome_page() {
    let page = welcome(Some("http://x".to_string()), &packages(&["a-1.zip", "A-2.zip", "b-1.zip"]), "0.1.0");
    assert_eq!(page.num_pkgs, 2);
    assert_eq!(page.base_url, "http://x/");
    assert_eq!(page.packages_url, "http://x/packages/");
    assert_eq!(page.simple_url, "http://x/simple/");
    assert_eq!(page.version, "0.1.0");
}
