//! The file name patterns, matched by the `regex` crate.
//!
//! Each wrapper is tied to one of the patterns of this module. What a pattern matches is stated over
//! the characters of the text.
use crate::text;
use vstd::prelude::*;

verus! {

/// A run of separators in a project name.
pub const NORMALIZE_PATTERN: &'static str = r"[-_.]+";

/// The ending of a source archive or an egg.
pub const ARCHIVE_SUFFIX_PATTERN: &'static str =
    r"(?i)(\.zip|\.tar\.gz|\.tgz|\.tar\.bz2|\.tar\.xz|-py[23]\.\d-.*|\.egg)$";

/// A dash in front of a digit.
pub const DASH_DIGIT_PATTERN: &'static str = r"-(\d)";

/// A wheel's file name: name, version, an optional build, and three tags.
pub const WHEEL_PATTERN: &'static str =
    r"(?x)^(?P<name>.+?)-(?P<ver>\d[^-]*?)(-(?P<build>\d[^-]*?))?-(?P<pyver>[^-]+)-(?P<abi>[^-]+)-(?P<plat>[^-]+)\.whl$";

/// The characters of the Unicode category Decimal_Number, which `\d` matches.
pub open spec fn decimal_digit(c: char) -> bool {
    let u = c as u32;
    ||| 0x30 <= u <= 0x39
    ||| 0x660 <= u <= 0x669
    ||| 0x6f0 <= u <= 0x6f9
    ||| 0x7c0 <= u <= 0x7c9
    ||| 0x966 <= u <= 0x96f
    ||| 0x9e6 <= u <= 0x9ef
    ||| 0xa66 <= u <= 0xa6f
    ||| 0xae6 <= u <= 0xaef
    ||| 0xb66 <= u <= 0xb6f
    ||| 0xbe6 <= u <= 0xbef
    ||| 0xc66 <= u <= 0xc6f
    ||| 0xce6 <= u <= 0xcef
    ||| 0xd66 <= u <= 0xd6f
    ||| 0xde6 <= u <= 0xdef
    ||| 0xe50 <= u <= 0xe59
    ||| 0xed0 <= u <= 0xed9
    ||| 0xf20 <= u <= 0xf29
    ||| 0x1040 <= u <= 0x1049
    ||| 0x1090 <= u <= 0x1099
    ||| 0x17e0 <= u <= 0x17e9
    ||| 0x1810 <= u <= 0x1819
    ||| 0x1946 <= u <= 0x194f
    ||| 0x19d0 <= u <= 0x19d9
    ||| 0x1a80 <= u <= 0x1a89
    ||| 0x1a90 <= u <= 0x1a99
    ||| 0x1b50 <= u <= 0x1b59
    ||| 0x1bb0 <= u <= 0x1bb9
    ||| 0x1c40 <= u <= 0x1c49
    ||| 0x1c50 <= u <= 0x1c59
    ||| 0xa620 <= u <= 0xa629
    ||| 0xa8d0 <= u <= 0xa8d9
    ||| 0xa900 <= u <= 0xa909
    ||| 0xa9d0 <= u <= 0xa9d9
    ||| 0xa9f0 <= u <= 0xa9f9
    ||| 0xaa50 <= u <= 0xaa59
    ||| 0xabf0 <= u <= 0xabf9
    ||| 0xff10 <= u <= 0xff19
    ||| 0x104a0 <= u <= 0x104a9
    ||| 0x10d30 <= u <= 0x10d39
    ||| 0x10d40 <= u <= 0x10d49
    ||| 0x11066 <= u <= 0x1106f
    ||| 0x110f0 <= u <= 0x110f9
    ||| 0x11136 <= u <= 0x1113f
    ||| 0x111d0 <= u <= 0x111d9
    ||| 0x112f0 <= u <= 0x112f9
    ||| 0x11450 <= u <= 0x11459
    ||| 0x114d0 <= u <= 0x114d9
    ||| 0x11650 <= u <= 0x11659
    ||| 0x116c0 <= u <= 0x116c9
    ||| 0x116d0 <= u <= 0x116e3
    ||| 0x11730 <= u <= 0x11739
    ||| 0x118e0 <= u <= 0x118e9
    ||| 0x11950 <= u <= 0x11959
    ||| 0x11bf0 <= u <= 0x11bf9
    ||| 0x11c50 <= u <= 0x11c59
    ||| 0x11d50 <= u <= 0x11d59
    ||| 0x11da0 <= u <= 0x11da9
    ||| 0x11f50 <= u <= 0x11f59
    ||| 0x16130 <= u <= 0x16139
    ||| 0x16a60 <= u <= 0x16a69
    ||| 0x16ac0 <= u <= 0x16ac9
    ||| 0x16b50 <= u <= 0x16b59
    ||| 0x16d70 <= u <= 0x16d79
    ||| 0x1ccf0 <= u <= 0x1ccf9
    ||| 0x1d7ce <= u <= 0x1d7ff
    ||| 0x1e140 <= u <= 0x1e149
    ||| 0x1e2f0 <= u <= 0x1e2f9
    ||| 0x1e4f0 <= u <= 0x1e4f9
    ||| 0x1e5f1 <= u <= 0x1e5fa
    ||| 0x1e950 <= u <= 0x1e959
    ||| 0x1fbf0 <= u <= 0x1fbf9
}

/// The characters that `[-_.]` matches.
pub open spec fn separator(c: char) -> bool {
    c == '-' || c == '_' || c == '.'
}

/// `s` with one dash in place of each longest run of separators.
pub open spec fn collapsed(s: Seq<char>) -> Seq<char>
    decreases s.len(),
{
    if s.len() == 0 {
        s
    } else if !separator(s.last()) {
        collapsed(s.drop_last()).push(s.last())
    } else if s.len() > 1 && separator(s[s.len() - 2]) {
        collapsed(s.drop_last())
    } else {
        collapsed(s.drop_last()).push('-')
    }
}

/// Whether `t` is `word`, a word in lower case, without regard to the case of ASCII letters.
pub open spec fn same_but_case(t: Seq<char>, word: Seq<char>) -> bool {
    t.len() == word.len() && forall|i: int|
        0 <= i < t.len() ==> text::ascii_lower(#[trigger] t[i]) == word[i]
}

/// Whether `t`, as a whole, is an archive ending.
pub open spec fn archive_suffix(t: Seq<char>) -> bool {
    ||| same_but_case(t, ".zip"@)
    ||| same_but_case(t, ".tar.gz"@)
    ||| same_but_case(t, ".tgz"@)
    ||| same_but_case(t, ".tar.bz2"@)
    ||| same_but_case(t, ".tar.xz"@)
    ||| same_but_case(t, ".egg"@)
    ||| {
        &&& t.len() >= 7
        &&& same_but_case(t.take(3), "-py"@)
        &&& t[3] == '2' || t[3] == '3'
        &&& t[4] == '.'
        &&& decimal_digit(t[5])
        &&& t[6] == '-'
        &&& !t.skip(7).contains('\n')
    }
}

/// Whether the text has an archive ending.
pub open spec fn has_archive_suffix(s: Seq<char>) -> bool {
    exists|p: int| 0 <= p <= s.len() && archive_suffix(#[trigger] s.skip(p))
}

/// `s` without its longest archive ending among those that begin at `p` or later.
pub open spec fn archive_stem_from(s: Seq<char>, p: int) -> Seq<char>
    decreases s.len() - p,
{
    if p >= s.len() || archive_suffix(s.skip(p)) {
        s.take(p)
    } else {
        archive_stem_from(s, p + 1)
    }
}

/// `s` without its longest archive ending.
pub open spec fn archive_stem(s: Seq<char>) -> Seq<char> {
    archive_stem_from(s, 0)
}

/// Whether a dash in front of a digit stands at position `p`.
pub open spec fn dash_digit_at(s: Seq<char>, p: int) -> bool {
    0 <= p && p + 1 < s.len() && s[p] == '-' && decimal_digit(s[p + 1])
}

/// The position of the first dash in front of a digit at or behind `p`, or the length of `s` where
/// there is none.
pub open spec fn dash_digit_from(s: Seq<char>, p: int) -> int
    decreases s.len() - p,
{
    if p >= s.len() {
        s.len() as int
    } else if dash_digit_at(s, p) {
        p
    } else {
        dash_digit_from(s, p + 1)
    }
}

/// `dash_digit_from` finds the first position.
pub proof fn lemma_dash_digit_from(s: Seq<char>, from: int, p: int)
    requires
        0 <= from <= p <= s.len(),
        p < s.len() ==> dash_digit_at(s, p),
        forall|q: int| from <= q < p ==> !dash_digit_at(s, q),
    ensures
        dash_digit_from(s, from) == p,
    decreases p - from,
{
    if from < p {
        lemma_dash_digit_from(s, from + 1, p);
    }
}

/// Whether `t` is not empty and begins with a digit.
pub open spec fn digit_led(t: Seq<char>) -> bool {
    t.len() > 0 && decimal_digit(t[0])
}

/// The parts of a wheel's file name that make up a package's name and version.
pub struct WheelName {
    pub name: Seq<char>,
    pub version: Seq<char>,
    pub build: Option<Seq<char>>,
}

/// Whether the first `k` parts, joined, can be a wheel's name: not empty, and on one line.
pub open spec fn wheel_name_ok(parts: Seq<Seq<char>>, k: int) -> bool {
    let name = text::joined(parts.take(k), "-"@);
    name.len() > 0 && !name.contains('\n')
}

/// The parts of a wheel's file name, between its dashes: the last three are tags, which are not
/// empty. Before them stand a version and a build, where both begin with a digit and something is
/// left for the name, or else a version alone.
pub open spec fn wheel_name(s: Seq<char>) -> Option<WheelName> {
    let parts = text::pieces(s.take(s.len() - 4), '-');
    let n = parts.len() as int;
    if !text::finishes_with(s, ".whl"@) || n < 5 || parts[n - 1].len() == 0 || parts[n - 2].len()
        == 0 || parts[n - 3].len() == 0 {
        None
    } else if n >= 6 && digit_led(parts[n - 5]) && digit_led(parts[n - 4]) && wheel_name_ok(
        parts,
        n - 5,
    ) {
        Some(
            WheelName {
                name: text::joined(parts.take(n - 5), "-"@),
                version: parts[n - 5],
                build: Some(parts[n - 4]),
            },
        )
    } else if digit_led(parts[n - 4]) && wheel_name_ok(parts, n - 4) {
        Some(
            WheelName {
                name: text::joined(parts.take(n - 4), "-"@),
                version: parts[n - 4],
                build: None,
            },
        )
    } else {
        None
    }
}

/// A compiled pattern.
#[verifier::external_type_specification]
#[verifier::external_body]
pub struct ExRegex(regex::Regex);

/// The text that a pattern was compiled from.
pub uninterp spec fn regex_source(re: regex::Regex) -> Seq<char>;

/// `regex::Regex::new`, for the patterns of this module, all of which compile.
#[verifier::external_body]
fn regex_new(pattern: &str) -> (r: regex::Regex)
    requires
        pattern@ == NORMALIZE_PATTERN@ || pattern@ == ARCHIVE_SUFFIX_PATTERN@ || pattern@
            == DASH_DIGIT_PATTERN@ || pattern@ == WHEEL_PATTERN@,
    ensures
        regex_source(r) == pattern@,
{
    regex::Regex::new(pattern).unwrap()
}

/// `regex::Regex::replace_all`, for the pattern of separator runs and a dash as the replacement:
/// every longest run of separators becomes one dash, and nothing else changes.
#[verifier::external_body]
fn regex_replace_all(re: &regex::Regex, text: &str, replacement: &str) -> (r: String)
    requires
        regex_source(*re) == NORMALIZE_PATTERN@,
        replacement@ == "-"@,
    ensures
        r@ == collapsed(text@),
{
    re.replace_all(text, replacement).into_owned()
}

/// `regex::Regex::is_match`, for the pattern of archive endings: whether some ending of the text
/// is one. The pattern ignores case, `\d` is any Unicode decimal digit, `.` is anything but a line
/// feed, and `$` is the end of the text.
#[verifier::external_body]
fn regex_is_match(re: &regex::Regex, text: &str) -> (r: bool)
    requires
        regex_source(*re) == ARCHIVE_SUFFIX_PATTERN@,
    ensures
        r == has_archive_suffix(text@),
{
    re.is_match(text)
}

/// `regex::Regex::replace`, for the pattern of archive endings and nothing as the replacement. The
/// match that begins first is the longest ending, and it is taken off; a text without a match
/// stays as it is.
#[verifier::external_body]
fn regex_replace(re: &regex::Regex, text: &str, replacement: &str) -> (r: String)
    requires
        regex_source(*re) == ARCHIVE_SUFFIX_PATTERN@,
        replacement@ == ""@,
    ensures
        r@ == archive_stem(text@),
{
    re.replace(text, replacement).into_owned()
}

/// `regex::Regex::find`, for the pattern of a dash in front of a digit: the byte offset of the first
/// such dash, which is the length in UTF-8 of what stands before it.
#[verifier::external_body]
fn regex_find_start(re: &regex::Regex, text: &str) -> (r: Option<usize>)
    requires
        regex_source(*re) == DASH_DIGIT_PATTERN@,
    ensures
        match r {
            Some(at) => exists|p: int|
                #![trigger dash_digit_at(text@, p)]
                {
                    &&& dash_digit_at(text@, p)
                    &&& forall|q: int| 0 <= q < p ==> !dash_digit_at(text@, q)
                    &&& at == vstd::utf8::encode_utf8(text@.take(p)).len()
                },
            None => forall|q: int| !dash_digit_at(text@, q),
        },
{
    re.find(text).map(|m| m.start())
}

/// `regex::Regex::captures`, for the pattern of a wheel's file name and its groups for the name, the
/// version and the build. The name is as short as a match allows, and the groups hold what stands
/// between dashes, as `wheel_name` says; the first two groups take part in every match.
#[verifier::external_body]
fn regex_captures(
    re: &regex::Regex,
    text: &str,
    name: &str,
    version: &str,
    build: &str,
) -> (r: Option<(Option<String>, Option<String>, Option<String>)>)
    requires
        regex_source(*re) == WHEEL_PATTERN@,
        name@ == "name"@,
        version@ == "ver"@,
        build@ == "build"@,
    ensures
        match r {
            Some(groups) => {
                &&& wheel_name(text@) is Some
                &&& text::opt_text(groups.0) == Some(wheel_name(text@)->0.name)
                &&& text::opt_text(groups.1) == Some(wheel_name(text@)->0.version)
                &&& text::opt_text(groups.2) == wheel_name(text@)->0.build
            },
            None => wheel_name(text@) is None,
        },
{
    let caps = re.captures(text)?;
    let group = |g: &str| caps.name(g).map(|m| m.as_str().to_string());
    Some((group(name), group(version), group(build)))
}

/// The patterns, compiled.
pub struct NamePatterns {
    normalize: regex::Regex,
    archive_suffix: regex::Regex,
    dash_digit: regex::Regex,
    wheel: regex::Regex,
}

impl NamePatterns {
    /// Each pattern is compiled from its text.
    #[verifier::type_invariant]
    pub closed spec fn compiled(self) -> bool {
        &&& regex_source(self.normalize) == NORMALIZE_PATTERN@
        &&& regex_source(self.archive_suffix) == ARCHIVE_SUFFIX_PATTERN@
        &&& regex_source(self.dash_digit) == DASH_DIGIT_PATTERN@
        &&& regex_source(self.wheel) == WHEEL_PATTERN@
    }

    /// Compiles the patterns.
    pub fn new() -> (r: Self)
        ensures
            r.compiled(),
    {
        NamePatterns {
            normalize: regex_new(NORMALIZE_PATTERN),
            archive_suffix: regex_new(ARCHIVE_SUFFIX_PATTERN),
            dash_digit: regex_new(DASH_DIGIT_PATTERN),
            wheel: regex_new(WHEEL_PATTERN),
        }
    }

    /// The text with one dash in place of each longest run of separators.
    pub fn collapse(&self, s: &str) -> (r: String)
        ensures
            r@ == collapsed(s@),
    {
        proof {
            use_type_invariant(self);
        }
        regex_replace_all(&self.normalize, s, "-")
    }

    /// The text without its longest archive ending, where it has one.
    pub fn strip_archive_suffix(&self, s: &str) -> (r: Option<String>)
        ensures
            match r {
                Some(stem) => has_archive_suffix(s@) && stem@ == archive_stem(s@),
                None => !has_archive_suffix(s@),
            },
    {
        proof {
            use_type_invariant(self);
        }
        if regex_is_match(&self.archive_suffix, s) {
            Some(regex_replace(&self.archive_suffix, s, ""))
        } else {
            None
        }
    }

    /// What stands before and behind the first dash in front of a digit, where there is one.
    pub fn split_at_dash_digit(&self, s: &str) -> (r: Option<(String, String)>)
        ensures
            match r {
                Some(p) => {
                    &&& dash_digit_from(s@, 0) < s@.len()
                    &&& p.0@ == s@.take(dash_digit_from(s@, 0))
                    &&& p.1@ == s@.skip(dash_digit_from(s@, 0) + 1)
                },
                None => dash_digit_from(s@, 0) == s@.len(),
            },
    {
        proof {
            use_type_invariant(self);
        }
        match regex_find_start(&self.dash_digit, s) {
            Some(at) => {
                let ghost p = choose|p: int|
                    #![trigger dash_digit_at(s@, p)]
                    {
                        &&& dash_digit_at(s@, p)
                        &&& forall|q: int| 0 <= q < p ==> !dash_digit_at(s@, q)
                        &&& at == vstd::utf8::encode_utf8(s@.take(p)).len()
                    };
                proof {
                    lemma_dash_digit_from(s@, 0, p);
                }
                let (front, rest) = text::split_at_byte(s, at, Ghost(p));
                let rest = text::chars_of(&rest);
                let back = text::text_range(&rest, 1, rest.len());
                assert(back@ =~= s@.skip(p + 1));
                Some((front, back))
            },
            None => {
                proof {
                    lemma_dash_digit_from(s@, 0, s@.len() as int);
                }
                None
            },
        }
    }

    /// The name, the version and the build in a wheel's file name.
    pub fn wheel_parts(&self, s: &str) -> (r: Option<(String, String, Option<String>)>)
        ensures
            match r {
                Some(parts) => {
                    &&& wheel_name(s@) is Some
                    &&& parts.0@ == wheel_name(s@)->0.name
                    &&& parts.1@ == wheel_name(s@)->0.version
                    &&& text::opt_text(parts.2) == wheel_name(s@)->0.build
                },
                None => wheel_name(s@) is None,
            },
    {
        proof {
            use_type_invariant(self);
        }
        match regex_captures(&self.wheel, s, "name", "ver", "build") {
            Some((Some(name), Some(version), build)) => Some((name, version, build)),
            _ => None,
        }
    }
}

} // verus!
