//! Text as sequences of characters: searching, cutting, trimming and joining.
use vstd::prelude::*;

verus! {

/// The characters held by a list of strings, string by string.
pub open spec fn texts(v: Seq<String>) -> Seq<Seq<char>> {
    Seq::new(v.len(), |i: int| v[i]@)
}

/// What an optional string holds.
pub open spec fn opt_text(o: Option<String>) -> Option<Seq<char>> {
    match o {
        Some(s) => Some(s@),
        None => None,
    }
}

/// The text, or another where there is none.
pub open spec fn text_or(o: Option<Seq<char>>, default: Seq<char>) -> Seq<char> {
    match o {
        Some(s) => s,
        None => default,
    }
}

/// `String::push` appends the given character to the end of the string.
pub assume_specification[ String::push ](s: &mut String, c: char)
    ensures
        final(s)@ == old(s)@.push(c),
;

/// The lower case form of a text.
pub uninterp spec fn lowercase(s: Seq<char>) -> Seq<char>;

/// `str::to_lowercase` gives the lower case form of the text, which is named here. Of a text in
/// ASCII it is the text with the letters from `A` to `Z` in lower case.
pub assume_specification[ str::to_lowercase ](s: &str) -> (r: String)
    ensures
        r@ == lowercase(s@),
        vstd::utf8::is_ascii_chars(s@) ==> r@ == s@.map_values(|c: char| ascii_lower(c)),
;

/// The lower case form of an ASCII letter; any other character as it is.
pub open spec fn ascii_lower(c: char) -> char {
    if 'A' <= c <= 'Z' {
        ((c as u32) + 32) as char
    } else {
        c
    }
}

/// The lower case form of a text: letter by letter for ASCII, else the named one.
pub open spec fn lowered(s: Seq<char>) -> Seq<char> {
    if vstd::utf8::is_ascii_chars(s) {
        s.map_values(|c: char| ascii_lower(c))
    } else {
        lowercase(s)
    }
}

/// The lower case form of a text.
pub fn to_lower(s: &str) -> (r: String)
    ensures
        r@ == lowered(s@),
{
    s.to_lowercase()
}

/// UTF-8 encodes a text piece by piece, and pieces meet at character boundaries.
pub proof fn lemma_encode_split(s: Seq<char>, p: int)
    requires
        0 <= p <= s.len(),
    ensures
        vstd::utf8::encode_utf8(s) == vstd::utf8::encode_utf8(s.take(p))
            + vstd::utf8::encode_utf8(s.skip(p)),
        vstd::utf8::is_char_boundary(
            vstd::utf8::encode_utf8(s),
            vstd::utf8::encode_utf8(s.take(p)).len() as int,
        ),
    decreases p,
{
    let bytes = vstd::utf8::encode_utf8(s);
    vstd::utf8::encode_utf8_valid_utf8(s);
    if p == 0 {
        assert(s.skip(0) =~= s);
        assert(s.take(0) =~= Seq::<char>::empty());
        assert(bytes =~= vstd::utf8::encode_utf8(s.take(0)) + bytes);
    } else {
        let rest = s.drop_first();
        lemma_encode_split(rest, p - 1);
        assert(s.take(p).drop_first() =~= rest.take(p - 1));
        assert(s.skip(p) =~= rest.skip(p - 1));
        vstd::utf8::encode_utf8_first_scalar(s);
        assert(vstd::utf8::pop_first_scalar(bytes) =~= vstd::utf8::encode_utf8(rest));
        assert(bytes =~= vstd::utf8::encode_utf8(s.take(p)) + vstd::utf8::encode_utf8(s.skip(p)));
    }
}

/// Texts with the same encoding are the same.
pub proof fn lemma_encode_injective(a: Seq<char>, b: Seq<char>)
    requires
        vstd::utf8::encode_utf8(a) == vstd::utf8::encode_utf8(b),
    ensures
        a == b,
{
    vstd::utf8::encode_utf8_decode_utf8(a);
    vstd::utf8::encode_utf8_decode_utf8(b);
}

/// What stands before and from the character at position `p`, where `mid` is the byte offset of
/// that character.
pub(crate) fn split_at_byte(s: &str, mid: usize, Ghost(p): Ghost<int>) -> (r: (String, String))
    requires
        0 <= p <= s@.len(),
        mid == vstd::utf8::encode_utf8(s@.take(p)).len(),
    ensures
        r.0@ == s@.take(p),
        r.1@ == s@.skip(p),
{
    proof {
        lemma_encode_split(s@, p);
    }
    let (a, b) = s.split_at(mid);
    proof {
        assert(vstd::utf8::encode_utf8(a@) =~= vstd::utf8::encode_utf8(s@.take(p)));
        assert(vstd::utf8::encode_utf8(b@) =~= vstd::utf8::encode_utf8(s@.skip(p)));
        lemma_encode_injective(a@, s@.take(p));
        lemma_encode_injective(b@, s@.skip(p));
    }
    (a.to_owned(), b.to_owned())
}

/// The characters of `s`, in order.
pub fn chars_of(s: &str) -> (v: Vec<char>)
    ensures
        v@ == s@,
{
    let mut v: Vec<char> = Vec::new();
    for c in it: s.chars()
        invariant
            it.seq() == s@,
            v@ == it.seq().take(it.index()),
    {
        v.push(c);
    }
    v
}

/// The string made of the characters of `v` from position `from` up to, not including, `to`.
pub fn text_range(v: &Vec<char>, from: usize, to: usize) -> (s: String)
    requires
        from <= to <= v@.len(),
    ensures
        s@ == v@.subrange(from as int, to as int),
{
    let mut s = String::new();
    let mut i: usize = from;
    while i < to
        invariant
            from <= i <= to <= v@.len(),
            s@ == v@.subrange(from as int, i as int),
        decreases to - i,
    {
        s.push(v[i]);
        i = i + 1;
    }
    s
}

/// The position of the first `c` in `s`, or the length of `s` where there is none.
pub open spec fn index_of(s: Seq<char>, c: char) -> int
    decreases s.len(),
{
    if s.len() == 0 || s[0] == c {
        0
    } else {
        1 + index_of(s.drop_first(), c)
    }
}

/// `index_of` is the least position that holds `c`.
pub proof fn lemma_index_of(s: Seq<char>, c: char)
    ensures
        0 <= index_of(s, c) <= s.len(),
        index_of(s, c) < s.len() ==> s[index_of(s, c)] == c,
        forall|j: int| 0 <= j < index_of(s, c) ==> s[j] != c,
        s.contains(c) <==> index_of(s, c) < s.len(),
    decreases s.len(),
{
    if s.len() != 0 && s[0] != c {
        lemma_index_of(s.drop_first(), c);
        assert forall|j: int| 0 <= j < index_of(s, c) implies s[j] != c by {
            if j > 0 {
                assert(s[j] == s.drop_first()[j - 1]);
            }
        }
    }
    if s.contains(c) && index_of(s, c) >= s.len() {
        let j = choose|j: int| 0 <= j < s.len() && s[j] == c;
        assert(s[j] != c);
    }
}

/// The position that holds the first `c` is `index_of`.
pub proof fn lemma_index_of_is(s: Seq<char>, c: char, k: int)
    requires
        0 <= k <= s.len(),
        k < s.len() ==> s[k] == c,
        forall|j: int| 0 <= j < k ==> s[j] != c,
    ensures
        index_of(s, c) == k,
{
    lemma_index_of(s, c);
}

/// Whether `s` begins with `p`.
pub open spec fn begins_with(s: Seq<char>, p: Seq<char>) -> bool {
    p.len() <= s.len() && s.take(p.len() as int) == p
}

/// Whether `s` ends with `p`.
pub open spec fn finishes_with(s: Seq<char>, p: Seq<char>) -> bool {
    p.len() <= s.len() && s.skip(s.len() - p.len()) == p
}

/// Whether `p` occurs somewhere in `s`.
pub open spec fn occurs_in(p: Seq<char>, s: Seq<char>) -> bool {
    exists|i: int|
        0 <= i <= s.len() - p.len() && #[trigger] s.subrange(i, i + p.len()) == p
}

/// The pieces of `s` between occurrences of `c`; one piece more than there are occurrences.
pub open spec fn pieces(s: Seq<char>, c: char) -> Seq<Seq<char>>
    decreases s.len(),
{
    let k = index_of(s, c);
    if 0 <= k < s.len() {
        seq![s.take(k)] + pieces(s.skip(k + 1), c)
    } else {
        seq![s]
    }
}

/// A text has at least one piece.
pub proof fn lemma_pieces_nonempty(s: Seq<char>, c: char)
    ensures
        pieces(s, c).len() >= 1,
{
    lemma_index_of(s, c);
}

/// The parts put one behind the other, with `sep` between neighbours.
pub open spec fn joined(parts: Seq<Seq<char>>, sep: Seq<char>) -> Seq<char>
    decreases parts.len(),
{
    if parts.len() == 0 {
        Seq::empty()
    } else if parts.len() == 1 {
        parts[0]
    } else {
        joined(parts.drop_last(), sep) + sep + parts.last()
    }
}

/// `s` without one final carriage return, where it has one.
pub open spec fn without_final_cr(s: Seq<char>) -> Seq<char> {
    if s.len() > 0 && s.last() == '\r' {
        s.drop_last()
    } else {
        s
    }
}

/// The lines of `s`. A line ends with a line feed, which may follow a carriage return, or with the
/// text; a text that ends with a line feed has no further, empty line.
pub open spec fn text_lines(s: Seq<char>) -> Seq<Seq<char>>
    decreases s.len(),
{
    let k = index_of(s, '\n');
    if s.len() == 0 {
        Seq::empty()
    } else if 0 <= k < s.len() {
        seq![without_final_cr(s.take(k))] + text_lines(s.skip(k + 1))
    } else {
        seq![s]
    }
}

/// The characters with the Unicode property White_Space.
pub open spec fn white_space(c: char) -> bool {
    ||| '\u{9}' <= c <= '\u{d}'
    ||| c == '\u{20}'
    ||| c == '\u{85}'
    ||| c == '\u{a0}'
    ||| c == '\u{1680}'
    ||| '\u{2000}' <= c <= '\u{200a}'
    ||| '\u{2028}' <= c <= '\u{2029}'
    ||| c == '\u{202f}'
    ||| c == '\u{205f}'
    ||| c == '\u{3000}'
}

/// `s` without the white space at its beginning.
pub open spec fn trimmed_start(s: Seq<char>) -> Seq<char>
    decreases s.len(),
{
    if s.len() > 0 && white_space(s[0]) {
        trimmed_start(s.drop_first())
    } else {
        s
    }
}

/// `s` without the white space at its end.
pub open spec fn trimmed_end(s: Seq<char>) -> Seq<char>
    decreases s.len(),
{
    if s.len() > 0 && white_space(s.last()) {
        trimmed_end(s.drop_last())
    } else {
        s
    }
}

/// `s` without the white space at its beginning and at its end.
pub open spec fn trimmed(s: Seq<char>) -> Seq<char> {
    trimmed_end(trimmed_start(s))
}

/// `s` without the occurrences of `c` at its beginning.
pub open spec fn without_leading(s: Seq<char>, c: char) -> Seq<char>
    decreases s.len(),
{
    if s.len() > 0 && s[0] == c {
        without_leading(s.drop_first(), c)
    } else {
        s
    }
}

/// `s` with `r` in place of every `c`.
pub open spec fn replaced(s: Seq<char>, c: char, r: Seq<char>) -> Seq<char>
    decreases s.len(),
{
    if s.len() == 0 {
        s
    } else {
        replaced(s.drop_last(), c, r) + (if s.last() == c {
            r
        } else {
            seq![s.last()]
        })
    }
}

/// Whether both strings hold the same characters.
pub fn same_text(a: &str, b: &str) -> (r: bool)
    ensures
        r == (a@ == b@),
{
    let x = chars_of(a);
    let y = chars_of(b);
    if x.len() != y.len() {
        return false;
    }
    let mut i: usize = 0;
    while i < x.len()
        invariant
            x@ == a@,
            y@ == b@,
            x@.len() == y@.len(),
            i <= x@.len(),
            forall|j: int| 0 <= j < i ==> x@[j] == y@[j],
        decreases x@.len() - i,
    {
        if x[i] != y[i] {
            return false;
        }
        i = i + 1;
    }
    assert(x@ =~= y@);
    true
}

/// The position of the first `c` at or behind `from`, or the length of `v` where there is none.
pub fn find_char(v: &Vec<char>, from: usize, c: char) -> (k: usize)
    requires
        from <= v@.len(),
    ensures
        from <= k <= v@.len(),
        k - from == index_of(v@.skip(from as int), c),
        k < v@.len() ==> v@[k as int] == c,
        forall|j: int| from <= j < k ==> v@[j] != c,
{
    let mut k: usize = from;
    while k < v.len() && v[k] != c
        invariant
            from <= k <= v@.len(),
            forall|j: int| from <= j < k ==> v@[j] != c,
        decreases v@.len() - k,
    {
        k = k + 1;
    }
    proof {
        lemma_index_of_is(v@.skip(from as int), c, k - from);
    }
    k
}

/// Whether `c` occurs in `s`.
pub fn has_char(s: &str, c: char) -> (r: bool)
    ensures
        r == s@.contains(c),
{
    let v = chars_of(s);
    let k: usize = find_char(&v, 0, c);
    proof {
        assert(v@.skip(0) =~= v@);
        lemma_index_of(v@, c);
    }
    k < v.len()
}

/// Whether the characters of `v` from position `at` on begin with `p`.
fn matches_at(v: &Vec<char>, at: usize, p: &Vec<char>) -> (r: bool)
    requires
        at + p@.len() <= v@.len(),
    ensures
        r == (v@.subrange(at as int, at + p@.len()) == p@),
{
    let n: usize = v.len();
    let mut i: usize = 0;
    while i < p.len()
        invariant
            n == v@.len(),
            at + p@.len() <= v@.len(),
            i <= p@.len(),
            forall|j: int| 0 <= j < i ==> v@[at + j] == p@[j],
        decreases p@.len() - i,
    {
        if v[at + i] != p[i] {
            proof {
                let t = v@.subrange(at as int, at + p@.len());
                assert(t[i as int] == v@[at + i]);
            }
            return false;
        }
        i = i + 1;
    }
    assert(v@.subrange(at as int, at + p@.len()) =~= p@);
    true
}

/// Whether `s` begins with `p`.
pub fn starts_with(s: &str, p: &str) -> (r: bool)
    ensures
        r == begins_with(s@, p@),
{
    let v = chars_of(s);
    let w = chars_of(p);
    assert(w@.len() <= v@.len() ==> v@.take(w@.len() as int) =~= v@.subrange(0, w@.len() as int));
    w.len() <= v.len() && matches_at(&v, 0, &w)
}

/// Whether `s` ends with `p`.
pub fn ends_with(s: &str, p: &str) -> (r: bool)
    ensures
        r == finishes_with(s@, p@),
{
    let v = chars_of(s);
    let w = chars_of(p);
    assert(w@.len() <= v@.len() ==> v@.skip(v@.len() - w@.len()) =~= v@.subrange(
        v@.len() - w@.len(),
        v@.len() - w@.len() + w@.len(),
    ));
    w.len() <= v.len() && matches_at(&v, v.len() - w.len(), &w)
}

/// Whether `p` occurs somewhere in `s`.
pub fn contains_text(s: &str, p: &str) -> (r: bool)
    ensures
        r == occurs_in(p@, s@),
{
    let v = chars_of(s);
    let w = chars_of(p);
    if w.len() > v.len() {
        return false;
    }
    let last: usize = v.len() - w.len();
    let mut i: usize = 0;
    loop
        invariant
            v@ == s@,
            w@ == p@,
            w@.len() <= v@.len(),
            last == v@.len() - w@.len(),
            i <= last,
            forall|j: int| 0 <= j < i ==> #[trigger] s@.subrange(j, j + p@.len()) != p@,
        decreases last - i,
    {
        if matches_at(&v, i, &w) {
            return true;
        }
        if i == last {
            return false;
        }
        i = i + 1;
    }
}

/// The pieces of `s` between occurrences of `c`.
pub fn split(s: &str, c: char) -> (r: Vec<String>)
    ensures
        texts(r@) == pieces(s@, c),
{
    let v = chars_of(s);
    let mut out: Vec<String> = Vec::new();
    let mut i: usize = 0;
    assert(v@.skip(0) =~= v@);
    loop
        invariant
            v@ == s@,
            i <= v@.len(),
            pieces(s@, c) == texts(out@) + pieces(v@.skip(i as int), c),
        decreases v@.len() - i,
    {
        let k: usize = find_char(&v, i, c);
        let ghost before = out@;
        let ghost rest = v@.skip(i as int);
        out.push(text_range(&v, i, k));
        proof {
            assert(v@.subrange(i as int, k as int) =~= rest.take(k - i));
            assert(texts(out@) =~= texts(before).push(rest.take(k - i)));
        }
        if k == v.len() {
            proof {
                assert(rest.take(k - i) =~= rest);
                assert(texts(out@) =~= texts(before) + seq![rest]);
            }
            return out;
        }
        proof {
            assert(rest.skip(k - i + 1) =~= v@.skip(k + 1));
            assert(texts(out@) + pieces(v@.skip(k + 1), c) =~= texts(before) + (seq![rest.take(k - i)]
                + pieces(v@.skip(k + 1), c)));
        }
        i = k + 1;
    }
}

/// What stands before and behind the first `c` of `s`, where there is one.
pub fn split_once(s: &str, c: char) -> (r: Option<(String, String)>)
    ensures
        match r {
            Some(p) => {
                &&& index_of(s@, c) < s@.len()
                &&& p.0@ == s@.take(index_of(s@, c))
                &&& p.1@ == s@.skip(index_of(s@, c) + 1)
            },
            None => index_of(s@, c) == s@.len(),
        },
{
    let v = chars_of(s);
    let k: usize = find_char(&v, 0, c);
    assert(v@.skip(0) =~= v@);
    if k == v.len() {
        return None;
    }
    let a = text_range(&v, 0, k);
    let b = text_range(&v, k + 1, v.len());
    assert(a@ =~= s@.take(k as int));
    assert(b@ =~= s@.skip(k + 1));
    Some((a, b))
}

/// The lines of `s`.
pub fn lines(s: &str) -> (r: Vec<String>)
    ensures
        texts(r@) == text_lines(s@),
{
    let v = chars_of(s);
    let mut out: Vec<String> = Vec::new();
    let mut i: usize = 0;
    assert(v@.skip(0) =~= v@);
    while i < v.len()
        invariant
            v@ == s@,
            i <= v@.len(),
            text_lines(s@) == texts(out@) + text_lines(v@.skip(i as int)),
        decreases v@.len() - i,
    {
        let k: usize = find_char(&v, i, '\n');
        let ghost before = out@;
        let ghost rest = v@.skip(i as int);
        if k == v.len() {
            out.push(text_range(&v, i, k));
            proof {
                assert(v@.subrange(i as int, k as int) =~= rest);
                assert(texts(out@) =~= texts(before) + seq![rest]);
                assert(texts(out@) =~= texts(out@) + text_lines(v@.skip(k as int)));
            }
            i = k;
        } else {
            let end: usize = if k > i && v[k - 1] == '\r' {
                k - 1
            } else {
                k
            };
            out.push(text_range(&v, i, end));
            proof {
                let line = without_final_cr(rest.take(k - i));
                assert(v@.subrange(i as int, end as int) =~= line);
                assert(texts(out@) =~= texts(before).push(line));
                assert(rest.skip(k - i + 1) =~= v@.skip(k + 1));
                assert(texts(out@) + text_lines(v@.skip(k + 1)) =~= texts(before) + (seq![line]
                    + text_lines(v@.skip(k + 1))));
            }
            i = k + 1;
        }
    }
    assert(texts(out@) + text_lines(v@.skip(i as int)) =~= texts(out@));
    out
}

/// The parts from position `from` on, put one behind the other, with `sep` between neighbours.
pub fn join_from(parts: &Vec<String>, from: usize, sep: &str) -> (r: String)
    requires
        from <= parts@.len(),
    ensures
        r@ == joined(texts(parts@).skip(from as int), sep@),
{
    let ghost all = texts(parts@);
    let mut r = String::new();
    let mut i: usize = from;
    while i < parts.len()
        invariant
            from <= i <= parts@.len(),
            all == texts(parts@),
            r@ == joined(all.subrange(from as int, i as int), sep@),
        decreases parts@.len() - i,
    {
        if i > from {
            r.append(sep);
        }
        r.append(parts[i].as_str());
        proof {
            let now = all.subrange(from as int, i + 1);
            assert(now.drop_last() =~= all.subrange(from as int, i as int));
            assert(now.last() == all[i as int]);
            assert(r@ =~= joined(now, sep@));
        }
        i = i + 1;
    }
    assert(all.subrange(from as int, parts@.len() as int) =~= all.skip(from as int));
    r
}

/// Whether `c` has the Unicode property White_Space.
pub fn is_white_space(c: char) -> (r: bool)
    ensures
        r == white_space(c),
{
    ('\u{9}' <= c && c <= '\u{d}') || c == '\u{20}' || c == '\u{85}' || c == '\u{a0}' || c
        == '\u{1680}' || ('\u{2000}' <= c && c <= '\u{200a}') || ('\u{2028}' <= c && c
        <= '\u{2029}') || c == '\u{202f}' || c == '\u{205f}' || c == '\u{3000}'
}

/// `s` without the white space at its beginning and at its end.
pub fn trim(s: &str) -> (r: String)
    ensures
        r@ == trimmed(s@),
{
    let v = chars_of(s);
    let mut a: usize = 0;
    assert(v@.skip(0) =~= v@);
    while a < v.len() && is_white_space(v[a])
        invariant
            a <= v@.len(),
            trimmed_start(v@) == trimmed_start(v@.skip(a as int)),
        decreases v@.len() - a,
    {
        assert(v@.skip(a as int).drop_first() =~= v@.skip(a + 1));
        a = a + 1;
    }
    let ghost front = v@.skip(a as int);
    let mut b: usize = v.len();
    assert(v@.subrange(a as int, b as int) =~= front);
    while b > a && is_white_space(v[b - 1])
        invariant
            a <= b <= v@.len(),
            trimmed_end(front) == trimmed_end(v@.subrange(a as int, b as int)),
        decreases b,
    {
        assert(v@.subrange(a as int, b as int).drop_last() =~= v@.subrange(a as int, b - 1));
        b = b - 1;
    }
    text_range(&v, a, b)
}

/// `s` without the occurrences of `c` at its beginning.
pub fn trim_start_char(s: &str, c: char) -> (r: String)
    ensures
        r@ == without_leading(s@, c),
{
    let v = chars_of(s);
    let mut a: usize = 0;
    assert(v@.skip(0) =~= v@);
    while a < v.len() && v[a] == c
        invariant
            a <= v@.len(),
            without_leading(v@, c) == without_leading(v@.skip(a as int), c),
        decreases v@.len() - a,
    {
        assert(v@.skip(a as int).drop_first() =~= v@.skip(a + 1));
        a = a + 1;
    }
    let r = text_range(&v, a, v.len());
    assert(r@ =~= v@.skip(a as int));
    r
}

/// `s` with `r` in place of every `c`.
pub fn replace_char(s: &str, c: char, r: &str) -> (t: String)
    ensures
        t@ == replaced(s@, c, r@),
{
    let v = chars_of(s);
    let mut t = String::new();
    let mut i: usize = 0;
    while i < v.len()
        invariant
            i <= v@.len(),
            t@ == replaced(v@.take(i as int), c, r@),
        decreases v@.len() - i,
    {
        assert(v@.take(i + 1).drop_last() =~= v@.take(i as int));
        if v[i] == c {
            t.append(r);
        } else {
            t.push(v[i]);
            assert(t@ =~= replaced(v@.take(i as int), c, r@) + seq![v@[i as int]]);
        }
        i = i + 1;
    }
    assert(v@.take(v@.len() as int) =~= v@);
    t
}

/// `a` and then `b`.
pub fn concat2(a: &str, b: &str) -> (r: String)
    ensures
        r@ == a@ + b@,
{
    let mut r = String::new();
    r.append(a);
    r.append(b);
    assert(r@ =~= a@ + b@);
    r
}

/// `a`, then `b`, then `c`.
pub fn concat3(a: &str, b: &str, c: &str) -> (r: String)
    ensures
        r@ == a@ + b@ + c@,
{
    let mut r = concat2(a, b);
    r.append(c);
    r
}

/// A copy of a list of strings.
pub fn copy_texts(v: &Vec<String>) -> (r: Vec<String>)
    ensures
        texts(r@) == texts(v@),
{
    let mut r: Vec<String> = Vec::new();
    let mut i: usize = 0;
    while i < v.len()
        invariant
            i <= v@.len(),
            r@.len() == i,
            forall|j: int| 0 <= j < i ==> r@[j]@ == v@[j]@,
        decreases v@.len() - i,
    {
        r.push(v[i].clone());
        i = i + 1;
    }
    assert(texts(r@) =~= texts(v@));
    r
}

/// A copy of an optional string.
pub fn copy_opt(o: &Option<String>) -> (r: Option<String>)
    ensures
        opt_text(r) == opt_text(*o),
{
    match o {
        Some(s) => Some(s.clone()),
        None => None,
    }
}

} // verus!
