use pypi_index::paths;
use pypi_index::text;

#[test]
fn white_space_is_the_unicode_property() {
    for u in 0..=0x10ffffu32 {
        if let Some(c) = char::from_u32(u) {
            assert_eq!(text::is_white_space(c), c.is_whitespace(), "{:x}", u);
        }
    }
}

#[test]
fn lower_case() {
    assert_eq!(text::to_lower("FooBAR-1_z"), "foobar-1_z");
    assert_eq!(text::to_lower("ÄÖ"), "äö");
}

#[test]
fn same_text_compares_characters() {
    assert!(text::same_text("", ""));
    assert!(text::same_text("añb", "añb"));
    assert!(!text::same_text("a", "b"));
    assert!(!text::same_text("a", "ab"));
}

#[test]
fn splitting() {
    for s in ["", ",", "a", "a,b", ",a,,b,", "ä,ö"] {
        let wanted: Vec<String> = s.split(',').map(|p| p.to_string()).collect();
        assert_eq!(text::split(s, ','), wanted);
    }
    assert_eq!(text::split_once("a:b:c", ':'), Some(("a".to_string(), "b:c".to_string())));
    assert_eq!(text::split_once("abc", ':'), None);
    assert_eq!(text::split_once(":", ':'), Some((String::new(), String::new())));
}

#[test]
fn lines_of_text() {
    for s in ["", "\n", "a", "a\n", "a\nb", "a\r\nb\r\n", "\r", "\r\n", "a\n\nb", "a\rb\n", "a\r\r\n"] {
        let wanted: Vec<String> = s.lines().map(|l| l.to_string()).collect();
        assert_eq!(text::lines(s), wanted, "{:?}", s);
    }
}

#[test]
fn joining() {
    let parts = vec!["a".to_string(), "b".to_string(), "c".to_string()];
    assert_eq!(text::join_from(&parts, 0, "--"), "a--b--c");
    assert_eq!(text::join_from(&parts, 2, "\n"), "c");
    assert_eq!(text::join_from(&parts, 3, "\n"), "");
}

#[test]
fn trimming() {
    assert_eq!(text::trim(" \t a b\u{a0}\n"), "a b");
    assert_eq!(text::trim("  \u{3000}"), "");
    assert_eq!(text::trim_start_char("||a|", '|'), "a|");
    assert_eq!(text::trim_start_char("a", '|'), "a");
}

#[test]
fn searching() {
    assert!(text::starts_with("Basic x", "Basic "));
    assert!(!text::starts_with("basic x", "Basic "));
    assert!(!text::starts_with("B", "Basic "));
    assert!(text::ends_with("a.whl", ".whl"));
    assert!(!text::ends_with("whl", ".whl"));
    assert!(text::contains_text("xxabcx", "abc"));
    assert!(text::contains_text("abc", ""));
    assert!(!text::contains_text("ab", "abc"));
    assert!(!text::contains_text("abacab", "abc"));
    assert!(text::has_char("a\\b", '\\'));
    assert!(!text::has_char("ab", '/'));
}

#[test]
fn replacing() {
    assert_eq!(text::replace_char("a/b//c", '/', "."), "a.b..c");
    assert_eq!(text::replace_char("abc", '/', "."), "abc");
}

#[test]
fn concatenating_and_copying() {
    assert_eq!(text::concat2("a", "b"), "ab");
    assert_eq!(text::concat3("a", "-", "b"), "a-b");
    let v = vec!["x".to_string(), "y".to_string()];
    assert_eq!(text::copy_texts(&v), v);
    assert_eq!(text::copy_opt(&None), None);
    assert_eq!(text::copy_opt(&Some("q".to_string())), Some("q".to_string()));
}

#[test]
fn path_functions_agree_with_std() {
    let samples = [
        "", "/", "a", "a/b", "/a", "/a/b", "./a", "a/./b", ".", "..", "a/..", "a/../b", "a//b", "a/b/",
        "a/b/.", "./PKG-INFO", "x-1/PKG-INFO", "/PKG-INFO", "x//PKG-INFO/", "x/./PKG-INFO", "../PKG-INFO",
        "a/x/PKG-INFO", "PKG-INFO", ".a", "a.b.c", "dir/a.tar.gz", ".whl", "...",
    ];
    for s in samples {
        let p = std::path::Path::new(s);
        let name = p.file_name().map(|n| n.to_str().unwrap().to_string());
        assert_eq!(paths::file_name(s), name, "{:?}", s);
        let wanted = name.as_deref() == Some("PKG-INFO") && p.components().count() == 2;
        assert_eq!(paths::is_second_of_two(s, "PKG-INFO"), wanted, "{:?}", s);
        if let Some(n) = name {
            let stem = std::path::Path::new(&n).file_stem().unwrap().to_str().unwrap().to_string();
            assert_eq!(paths::file_stem(&n), stem, "{:?}", s);
        }
    }
    for dir in ["", "/", "/data/packages", "/data/packages/", "rel"] {
        let wanted = std::path::Path::new(dir).join("a-1.whl");
        assert_eq!(paths::join(dir, "a-1.whl"), wanted.to_str().unwrap());
    }
}

#[test]
fn names_in_directories_are_file_names() {
    for dir in ["", "/", "/data", "/data/", "a/..", "."] {
        assert_eq!(paths::file_name(&paths::join(dir, "x-1.whl")).as_deref(), Some("x-1.whl"));
    }
}

#[test]
fn separators_of_both_kinds() {
    assert!(paths::has_separator("a/b"));
    assert!(paths::has_separator("a\\b"));
    assert!(!paths::has_separator("a-b.whl"));
}
