use pypi_index::core_metadata::{parse_core_metadata, CoreMetadata};

fn single(m: &CoreMetadata, key: &str) -> Option<String> {
    m.single.get(key).map(|s| s.to_string())
}

fn multi(m: &CoreMetadata, key: &str) -> Vec<String> {
    m.multi.get(key).map(|v| v.to_vec()).unwrap_or_default()
}

#[test]
fn headers_and_body() {
    let m = parse_core_metadata(
        "Metadata-Version: 2.1\nName: foo\nVersion: 1.0\nClassifier: A\nClassifier: B\n\nLong\ntext\n",
    );
    assert_eq!(single(&m, "Name").as_deref(), Some("foo"));
    assert_eq!(single(&m, "Version").as_deref(), Some("1.0"));
    assert_eq!(multi(&m, "Classifier"), ["A", "B"]);
    assert_eq!(m.description.as_deref(), Some("Long\ntext"));
}

#[test]
fn last_single_value_counts() {
    let m = parse_core_metadata("Name: a\nName: b\nSummary : x \nSummary: y: z\n");
    assert_eq!(single(&m, "Name").as_deref(), Some("b"));
    assert_eq!(single(&m, "Summary").as_deref(), Some("y: z"));
    assert_eq!(single(&m, "Version"), None);
}

#[test]
fn every_multi_value_is_kept() {
    let text = "Requires-Dist: a\nProvides-Dist: b\nObsoletes-Dist: c\nProject-URL: d, http://x\nPlatform: e\n\
        Supported-Platform: f\nDynamic: g\nRequires-Dist: h\nClassifier:";
    let m = parse_core_metadata(text);
    assert_eq!(multi(&m, "Requires-Dist"), ["a", "h"]);
    assert_eq!(multi(&m, "Provides-Dist"), ["b"]);
    assert_eq!(multi(&m, "Obsoletes-Dist"), ["c"]);
    assert_eq!(multi(&m, "Project-URL"), ["d, http://x"]);
    assert_eq!(multi(&m, "Platform"), ["e"]);
    assert_eq!(multi(&m, "Supported-Platform"), ["f"]);
    assert_eq!(multi(&m, "Dynamic"), ["g"]);
    assert_eq!(multi(&m, "Classifier"), [""]);
    assert_eq!(single(&m, "Requires-Dist"), None);
}

#[test]
fn folded_description() {
    let m = parse_core_metadata("Description: one\n        |two\n ||three\n\tno\nName: x\n lost\n\nbody");
    let wanted = "one\n       |two\nthree";
    assert_eq!(single(&m, "Description").as_deref(), Some(wanted));
    assert_eq!(m.description.as_deref(), Some(wanted));
    assert_eq!(single(&m, "Name").as_deref(), Some("x"));
}

#[test]
fn description_in_the_body_only() {
    assert_eq!(parse_core_metadata("Name: x\n\n \n\t\n").description, None);
    assert_eq!(parse_core_metadata("Name: x\n").description, None);
    assert_eq!(parse_core_metadata("Name: x\n\n a \n").description.as_deref(), Some(" a "));
    assert_eq!(parse_core_metadata("\nName: x").description.as_deref(), Some("Name: x"));
}

#[test]
fn lines_that_are_no_headers() {
    let m = parse_core_metadata("no colon here\n leading fold\nName: x\r\n\r\nbody\r\n");
    assert_eq!(single(&m, "Name").as_deref(), Some("x"));
    assert_eq!(m.description.as_deref(), Some("body"));
    assert_eq!(m.single.len(), 1);
    assert_eq!(m.multi.len(), 0);
}

#[test]
fn no_fields_by_default() {
    let m = CoreMetadata::default();
    assert_eq!(m.single.len(), 0);
    assert_eq!(m.multi.len(), 0);
    assert!(m.description.is_none());
    assert!(parse_core_metadata("").description.is_none());
}
