//! The patterns, held against what they are said to match.
use pypi_index::patterns::NamePatterns;
use pypi_index::storage::{guess_with, normalize_with};

fn strings(tokens: &[&str], longest: usize) -> Vec<String> {
    let mut all = vec![String::new()];
    let mut last = all.clone();
    for _ in 0..longest {
        let mut next: Vec<String> = Vec::new();
        for s in &last {
            for t in tokens {
                next.push(format!("{}{}", s, t));
            }
        }
        all.extend(next.iter().cloned());
        last = next;
    }
    all
}

fn digit_led(s: &str) -> bool {
    s.starts_with(|c: char| c.is_ascii_digit())
}

fn usable_name(parts: &[&str]) -> Option<String> {
    let name = parts.join("-");
    if name.is_empty() || name.contains('\n') {
        None
    } else {
        Some(name)
    }
}

fn wheel(stem: &str) -> Option<(String, String)> {
    let parts: Vec<&str> = stem.split('-').collect();
    let n = parts.len();
    if n < 5 || parts[n - 3..].iter().any(|p| p.is_empty()) {
        return None;
    }
    if n >= 6 && digit_led(parts[n - 5]) && digit_led(parts[n - 4]) {
        if let Some(name) = usable_name(&parts[..n - 5]) {
            return Some((name, format!("{}-{}", parts[n - 5], parts[n - 4])));
        }
    }
    if digit_led(parts[n - 4]) {
        return usable_name(&parts[..n - 4]).map(|name| (name, parts[n - 4].to_string()));
    }
    None
}

#[test]
fn wheel_pattern_on_all_short_names() {
    let patterns = NamePatterns::new();
    for stem in strings(&["a", "1", "-", "\n"], 6) {
        assert_eq!(guess_with(&patterns, &format!("{}.whl", stem)), wheel(&stem), "{:?}", stem);
    }
}

#[test]
fn wheel_pattern_on_part_sequences() {
    let patterns = NamePatterns::new();
    for stem in strings(&["a", "1", "-1", "-p", "-"], 5) {
        let stem = format!("{}-x-y-z", stem);
        assert_eq!(guess_with(&patterns, &format!("{}.whl", stem)), wheel(&stem), "{:?}", stem);
    }
}

fn ending(t: &str) -> bool {
    let low = t.to_ascii_lowercase();
    let fixed = [".zip", ".tar.gz", ".tgz", ".tar.bz2", ".tar.xz", ".egg"];
    let b = low.as_bytes();
    fixed.contains(&low.as_str())
        || (b.len() >= 7
            && low.starts_with("-py")
            && (b[3] == b'2' || b[3] == b'3')
            && b[4] == b'.'
            && b[5].is_ascii_digit()
            && b[6] == b'-'
            && !low.contains('\n'))
}

fn archive(s: &str) -> Option<(String, String)> {
    let at = (0..s.len()).find(|p| ending(&s[*p..]))?;
    let stem = &s[..at];
    let parts: Vec<&str> = stem.split('-').collect();
    if parts.len() == 1 {
        return Some((stem.to_string(), String::new()));
    }
    if parts.len() == 2 {
        return Some((parts[0].to_string(), parts[1].to_string()));
    }
    let b = stem.as_bytes();
    match (0..b.len().saturating_sub(1)).find(|p| b[*p] == b'-' && b[p + 1].is_ascii_digit()) {
        Some(p) => Some((stem[..p].to_string(), stem[p + 1..].to_string())),
        None => Some((stem.to_string(), String::new())),
    }
}

#[test]
fn archive_pattern_on_token_sequences() {
    let patterns = NamePatterns::new();
    let tokens = ["a", "-", "1", ".zip", ".tar.gz", "-py2.7-", "-PY3", ".", "\n"];
    for s in strings(&tokens, 4) {
        assert_eq!(guess_with(&patterns, &s), archive(&s), "{:?}", s);
    }
}

#[test]
fn archive_pattern_on_all_endings() {
    let patterns = NamePatterns::new();
    for e in [".zip", ".TAR.gz", ".tgz", ".tar.BZ2", ".tar.xz", ".egg", ".tar", ".gz", ".bz2", ".whL"] {
        for s in ["foo", "foo-1", "a-b-1", "a-b", "a-b-c", ".tar", "-", "x.tar"] {
            let file = format!("{}{}", s, e);
            assert_eq!(guess_with(&patterns, &file), archive(&file), "{:?}", file);
        }
    }
}

#[test]
fn separator_runs_on_all_short_names() {
    let patterns = NamePatterns::new();
    for s in strings(&["a", "B", "-", "_", ".", "é"], 5) {
        let mut wanted = String::new();
        for c in s.chars() {
            if !['-', '_', '.'].contains(&c) {
                wanted.extend(c.to_lowercase());
            } else if !wanted.ends_with('-') {
                wanted.push('-');
            }
        }
        assert_eq!(normalize_with(&patterns, &s), wanted, "{:?}", s);
    }
}
