use pypi_index::core_metadata::parse_core_metadata;
use pypi_index::extractors::BasicAuth;
use pypi_index::push_consumer::event_filename;
use pypi_index::pypi_push::{DistError, FileKind, PyDistFile};
use pypi_index::routes::download;
use pypi_index::uploads::{
    advance, announcement, metadata_of, upload, Announcement, UploadAction, UploadContent, UploadEvent, UploadForm,
    UploadState,
};

fn auth() -> BasicAuth {
    BasicAuth { username: "u".to_string() }
}

fn form(action: &str, raw_name: Option<&str>) -> UploadForm {
    UploadForm {
        action: action.to_string(),
        content: Some(UploadContent { raw_name: raw_name.map(|n| n.to_string()) }),
        name: Some("foo".to_string()),
        version: None,
        summary: Some("s".to_string()),
        author: None,
        license: None,
        requires_python: None,
        classifiers: Vec::new(),
        requires_dist: vec!["bar".to_string()],
    }
}

fn dist(raw: &str) -> PyDistFile {
    PyDistFile {
        path: "/p/a-1.tar.gz".to_string(),
        bytes: Vec::new(),
        kind: FileKind::Sdist,
        metadata: parse_core_metadata(raw),
    }
}

/// Runs an upload to its answer, and gives what was done on the way.
fn course(
    form: &UploadForm,
    there: bool,
    stored: bool,
    parsed: Option<Result<PyDistFile, DistError>>,
    list: &Option<String>,
) -> (Vec<String>, Result<(), u16>) {
    let mut parsed = Some(parsed);
    let mut done: Vec<String> = Vec::new();
    let (mut state, mut action) = upload(form, auth(), "/data");
    loop {
        let event = match action {
            UploadAction::LookFor(path) => {
                done.push(format!("look {}", path));
                UploadEvent::Looked(there)
            }
            UploadAction::Store(path) => {
                done.push(format!("store {}", path));
                UploadEvent::Stored(stored)
            }
            UploadAction::WriteSidecar { path, metadata } => {
                done.push(format!("describe {} {:?}", path, metadata.name));
                UploadEvent::SidecarWritten
            }
            UploadAction::Read(path) => {
                done.push(format!("read {}", path));
                UploadEvent::Parsed(parsed.take().unwrap())
            }
            UploadAction::Publish(e) => {
                done.push(format!("publish {} {:?}", e.routing_key, event_filename(e.body.as_bytes()).ok()));
                UploadEvent::Published
            }
            UploadAction::Answer(r) => {
                assert!(matches!(state, UploadState::Finished));
                return (done, r);
            }
        };
        let next = advance(state, event, list);
        state = next.0;
        action = next.1;
    }
}

#[test]
fn upload_that_is_announced() {
    let list = Some("foo".to_string());
    let (done, r) = course(&form("file_upload", Some("a-1.tar.gz")), false, true, Some(Ok(dist("Name: foo"))), &list);
    let wanted = [
        "look /data/a-1.tar.gz",
        "store /data/a-1.tar.gz",
        "describe /data/a-1.tar.gz.metadata.json Some(\"foo\")",
        "read /data/a-1.tar.gz",
        "publish pypi.publish.foo Some(\"a-1.tar.gz\")",
    ];
    assert_eq!(done, wanted);
    assert_eq!(r, Ok(()));
}

#[test]
fn uploads_that_are_not_announced() {
    let list = Some("foo".to_string());
    for parsed in [Ok(dist("Name: bar")), Ok(dist("Version: 1")), Err(DistError::NoPkgInfo)] {
        let (done, r) = course(&form("file_upload", Some("a")), false, true, Some(parsed), &list);
        assert_eq!(done.len(), 4);
        assert_eq!(r, Ok(()));
    }
    let (done, r) = course(&form("file_upload", Some("a")), false, true, Some(Ok(dist("Name: foo"))), &None);
    assert_eq!((done.len(), r), (4, Ok(())));
}

#[test]
fn uploads_that_fail() {
    let list = Some("foo".to_string());
    let f = form("file_upload", Some("a"));
    let (done, r) = course(&f, true, true, Some(Ok(dist("Name: foo"))), &list);
    assert_eq!((done, r), (vec!["look /data/a".to_string()], Err(409)));
    let (done, r) = course(&f, false, false, Some(Ok(dist("Name: foo"))), &list);
    assert_eq!((done.len(), r), (2, Err(500)));
    let (done, r) = course(&f, false, true, None, &list);
    assert_eq!((done.len(), r), (4, Err(500)));
}

#[test]
fn uploads_that_never_begin() {
    let answer = |f: &UploadForm| course(f, false, true, None, &None);
    assert_eq!(answer(&form("verify", None)), (vec![], Ok(())));
    assert_eq!(answer(&form("submit", None)), (vec![], Ok(())));
    assert_eq!(answer(&form("doc_upload", Some("a"))), (vec![], Err(400)));
    assert_eq!(answer(&form("file_upload", None)), (vec![], Err(400)));
    assert_eq!(answer(&form("file_upload", Some("a/b"))), (vec![], Err(400)));
    assert_eq!(answer(&form("file_upload", Some("a\\b"))), (vec![], Err(400)));
    let empty = UploadForm { content: None, ..form("file_upload", None) };
    assert_eq!(answer(&empty), (vec![], Err(400)));
}

#[test]
fn events_out_of_place_end_an_upload() {
    let (state, _) = upload(&form("file_upload", Some("a")), auth(), "/data");
    let (state, action) = advance(state, UploadEvent::Published, &None);
    assert!(matches!(state, UploadState::Finished));
    assert!(matches!(action, UploadAction::Answer(Err(500))));
}

#[test]
fn uploaded_files_are_downloaded_from_the_same_path() {
    let stored = match upload(&form("file_upload", Some("a-1.zip")), auth(), "/data").1 {
        UploadAction::LookFor(path) => path,
        other => panic!("{:?}", other),
    };
    assert_eq!(download("a-1.zip".to_string(), auth(), "/data").unwrap().path, stored);
}

#[test]
fn metadata_in_a_form() {
    let m = metadata_of(&form("file_upload", None));
    assert_eq!(m.name.as_deref(), Some("foo"));
    assert_eq!(m.version, None);
    assert_eq!(m.summary.as_deref(), Some("s"));
    assert_eq!(m.classifiers, None);
    assert_eq!(m.requires_dist, Some(vec!["bar".to_string()]));
}

#[test]
fn announcements() {
    let list = Some("foo".to_string());
    match announcement(Ok(dist("Name: foo\n")), "a-1.tar.gz", &list) {
        Announcement::Publish(e) => {
            assert_eq!(e.routing_key, "pypi.publish.foo");
            assert_eq!(event_filename(e.body.as_bytes()).ok().as_deref(), Some("a-1.tar.gz"));
        }
        other => panic!("{:?}", other),
    }
    assert!(matches!(announcement(Ok(dist("Name: Foo\n")), "a", &list), Announcement::NotListed));
    assert!(matches!(announcement(Ok(dist("Name: foo\n")), "a", &None), Announcement::NotListed));
    assert!(matches!(announcement(Ok(dist("Version: 1\n")), "a", &list), Announcement::NoName));
    let broken = announcement(Err(DistError::NoPkgInfo), "a", &list);
    assert!(matches!(broken, Announcement::Unreadable(DistError::NoPkgInfo)));
}

