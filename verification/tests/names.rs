use pypi_index::storage::{guess_pkgname_and_version, normalize_pkgname};

fn pair(name: &str, version: &str) -> Option<(String, String)> {
    Some((name.to_string(), version.to_string()))
}

#[test]
fn normal_form() {
    assert_eq!(normalize_pkgname("Foo_Bar"), "foo-bar");
    assert_eq!(normalize_pkgname("foo.-_bar"), "foo-bar");
    assert_eq!(normalize_pkgname("a"), "a");
    assert_eq!(normalize_pkgname(""), "");
    assert_eq!(normalize_pkgname("__x__"), "-x-");
    assert_eq!(normalize_pkgname("zope.interface"), "zope-interface");
}

#[test]
fn normalizing_twice_changes_nothing() {
    for s in ["Foo..Bar__baz", "-", "A-B", "x"] {
        let n = normalize_pkgname(s);
        assert_eq!(normalize_pkgname(&n), n);
        assert!(!n.contains("--") && !n.contains('_') && !n.contains('.'));
    }
}

#[test]
fn spellings_of_one_name() {
    let n = normalize_pkgname("my-pkg");
    for s in ["my_pkg", "my.pkg", "My-Pkg", "MY__PKG", "my-._pkg"] {
        assert_eq!(normalize_pkgname(s), n);
    }
    assert_ne!(normalize_pkgname("mypkg"), n);
    assert_eq!(normalize_pkgname("-A._b--C_"), normalize_pkgname("__a-B.c."));
}

#[test]
fn wheels_are_read_exactly() {
    assert_eq!(guess_pkgname_and_version("foo-1.0-py3-none-any.whl"), pair("foo", "1.0"));
    assert_eq!(guess_pkgname_and_version("foo-1.0-2-py3-none-any.whl"), pair("foo", "1.0-2"));
    assert_eq!(
        guess_pkgname_and_version("foo_bar-1.0b1-cp311-cp311-manylinux_2_17_x86_64.whl"),
        pair("foo_bar", "1.0b1")
    );
    assert_eq!(guess_pkgname_and_version("foo-bar-1.0-py3-none-any.whl"), pair("foo-bar", "1.0"));
    assert_eq!(guess_pkgname_and_version("-1-2-py3-none-any.whl"), pair("-1", "2"));
    assert_eq!(guess_pkgname_and_version("foo-1.0.whl"), None);
    assert_eq!(guess_pkgname_and_version("foo-x-py3-none-any.whl"), None);
    assert_eq!(guess_pkgname_and_version("foo-1.0--none-any.whl"), None);
    assert_eq!(guess_pkgname_and_version("fo\no-1.0-py3-none-any.whl"), None);
    assert_eq!(guess_pkgname_and_version(".whl"), None);
}

#[test]
fn source_archives_are_guessed() {
    assert_eq!(guess_pkgname_and_version("foo-1.0.tar.gz"), pair("foo", "1.0"));
    assert_eq!(guess_pkgname_and_version("foo-bar-1.0.zip"), pair("foo-bar", "1.0"));
    assert_eq!(guess_pkgname_and_version("foo.tgz"), pair("foo", ""));
    assert_eq!(guess_pkgname_and_version("foo-bar.tar.bz2"), pair("foo", "bar"));
    assert_eq!(guess_pkgname_and_version("foo-bar-baz.tar.xz"), pair("foo-bar-baz", ""));
    assert_eq!(guess_pkgname_and_version("foo-1.0-py2.7-linux.egg"), pair("foo", "1.0"));
    assert_eq!(guess_pkgname_and_version("foo-1.0.ZIP"), pair("foo", "1.0"));
    assert_eq!(guess_pkgname_and_version("a-b-\u{661}.zip"), pair("a-b", "\u{661}"));
    assert_eq!(guess_pkgname_and_version("ä-b-1.zip"), pair("ä-b", "1"));
    assert_eq!(guess_pkgname_and_version("foo-1.0.exe"), None);
    assert_eq!(guess_pkgname_and_version("foo-1.0.tar"), None);
    assert_eq!(guess_pkgname_and_version(""), None);
    assert_eq!(guess_pkgname_and_version(".zip"), pair("", ""));
}

#[test]
fn longest_ending_is_taken_off() {
    assert_eq!(guess_pkgname_and_version("foo-1.zip.tar.gz"), pair("foo", "1.zip"));
    assert_eq!(guess_pkgname_and_version("x-1-PY3.8-y.tar.gz"), pair("x", "1"));
}

#[test]
fn wheel_file_names_read_back() {
    for (name, version, build) in [("a", "1", None), ("my_pkg", "2.0", Some("3b")), ("x", "0a", Some("0"))] {
        let middle = match build {
            Some(b) => format!("{}-{}", version, b),
            None => version.to_string(),
        };
        let file = format!("{}-{}-py3-none-any.whl", name, middle);
        assert_eq!(guess_pkgname_and_version(&file), pair(name, &middle));
    }
}

#[test]
fn digits_of_the_patterns_are_decimal_numbers() {
    let starts: [u32; 68] = [
        0x30, 0x660, 0x6f0, 0x7c0, 0x966, 0x9e6, 0xa66, 0xae6, 0xb66, 0xbe6, 0xc66, 0xce6, 0xd66, 0xde6, 0xe50,
        0xed0, 0xf20, 0x1040, 0x1090, 0x17e0, 0x1810, 0x1946, 0x19d0, 0x1a80, 0x1a90, 0x1b50, 0x1bb0, 0x1c40,
        0x1c50, 0xa620, 0xa8d0, 0xa900, 0xa9d0, 0xa9f0, 0xaa50, 0xabf0, 0xff10, 0x104a0, 0x10d30, 0x10d40,
        0x11066, 0x110f0, 0x11136, 0x111d0, 0x112f0, 0x11450, 0x114d0, 0x11650, 0x116c0, 0x11730, 0x118e0,
        0x11950, 0x11bf0, 0x11c50, 0x11d50, 0x11da0, 0x11f50, 0x16130, 0x16a60, 0x16ac0, 0x16b50, 0x16d70,
        0x1ccf0, 0x1e140, 0x1e2f0, 0x1e4f0, 0x1e5f1, 0x1e950,
    ];
    let digit = regex::Regex::new(r"^\d$").unwrap();
    for u in 0..=0x10ffffu32 {
        if let Some(c) = char::from_u32(u) {
            let listed = starts.iter().any(|s| *s <= u && u <= *s + 9)
                || (0x116d0..=0x116e3).contains(&u)
                || (0x1d7ce..=0x1d7ff).contains(&u)
                || (0x1fbf0..=0x1fbf9).contains(&u);
            assert_eq!(digit.is_match(&c.to_string()), listed, "{:x}", u);
        }
    }
}
