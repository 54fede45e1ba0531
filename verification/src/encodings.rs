//! Base64, read by the `base64` crate, and UTF-8.
use vstd::prelude::*;

verus! {

/// The character for a number below sixty-four.
pub open spec fn base64_char(n: int) -> char {
    if 0 <= n < 26 {
        ((65 + n) as u32) as char
    } else if 26 <= n < 52 {
        ((71 + n) as u32) as char
    } else if 52 <= n < 62 {
        ((n - 4) as u32) as char
    } else if n == 62 {
        '+'
    } else {
        '/'
    }
}

/// Three bytes as one number.
pub open spec fn triple(a: u8, b: u8, c: u8) -> int {
    65536 * (a as int) + 256 * (b as int) + (c as int)
}

/// The four characters for three bytes.
#[verifier::opaque]
pub open spec fn base64_group(a: u8, b: u8, c: u8) -> Seq<char> {
    let n = triple(a, b, c);
    seq![
        base64_char(n / 262144),
        base64_char(n / 4096 % 64),
        base64_char(n / 64 % 64),
        base64_char(n % 64),
    ]
}

/// The bytes written down in Base64, with the standard alphabet and padding.
pub open spec fn base64_text(bytes: Seq<u8>) -> Seq<char>
    decreases bytes.len(),
{
    if bytes.len() == 0 {
        Seq::empty()
    } else if bytes.len() == 1 {
        base64_group(bytes[0], 0, 0).take(2) + seq!['=', '=']
    } else if bytes.len() == 2 {
        base64_group(bytes[0], bytes[1], 0).take(3) + seq!['=']
    } else {
        base64_group(bytes[0], bytes[1], bytes[2]) + base64_text(bytes.skip(3))
    }
}

/// The bytes that a text in Base64 stands for, where it is one.
pub open spec fn base64_bytes(s: Seq<char>) -> Option<Seq<u8>> {
    if exists|b: Seq<u8>| #[trigger] base64_text(b) == s {
        Some(choose|b: Seq<u8>| #[trigger] base64_text(b) == s)
    } else {
        None
    }
}

/// Different numbers have different characters, and none has the padding.
proof fn lemma_base64_char(m: int, n: int)
    requires
        0 <= m < 64,
        0 <= n < 64,
    ensures
        base64_char(m) == base64_char(n) ==> m == n,
        base64_char(m) != '=',
{
}

/// The four numbers of three bytes make up the bytes.
proof fn lemma_triple(a: u8, b: u8, c: u8)
    ensures
        ({
            let n = triple(a, b, c);
            &&& 0 <= n / 262144 < 64
            &&& 0 <= n / 4096 % 64 < 64
            &&& 0 <= n / 64 % 64 < 64
            &&& 0 <= n % 64 < 64
            &&& n == 262144 * (n / 262144) + 4096 * (n / 4096 % 64) + 64 * (n / 64 % 64) + n % 64
        }),
{
    let n = triple(a, b, c);
    vstd::arithmetic::div_mod::lemma_div_denominator(n, 64, 64);
    vstd::arithmetic::div_mod::lemma_div_denominator(n, 4096, 64);
    let p = n / 64;
    let q = n / 4096;
    assert(n == 64 * p + n % 64);
    assert(p == 64 * (p / 64) + p % 64);
    assert(q == 64 * (q / 64) + q % 64);
    assert(q == p / 64);
    assert(n / 262144 == q / 64);
}

/// Three bytes and their number determine each other.
proof fn lemma_triple_injective(a: u8, b: u8, c: u8, d: u8, e: u8, f: u8)
    requires
        triple(a, b, c) == triple(d, e, f),
    ensures
        a == d && b == e && c == f,
{
}

/// Groups of the same characters stand for the same bytes, and hold no padding.
proof fn lemma_base64_group(a: u8, b: u8, c: u8, d: u8, e: u8, f: u8)
    ensures
        ({
            let g = base64_group(a, b, c);
            let h = base64_group(d, e, f);
            &&& g.len() == 4
            &&& g[2] != '='
            &&& g[3] != '='
            &&& g[0] == h[0] && g[1] == h[1] && g[2] == h[2] && g[3] == h[3] ==> a == d && b == e
                && c == f
        }),
{
    reveal(base64_group);
    let m = triple(a, b, c);
    let n = triple(d, e, f);
    lemma_triple(a, b, c);
    lemma_triple(d, e, f);
    lemma_base64_char(m / 262144, n / 262144);
    lemma_base64_char(m / 4096 % 64, n / 4096 % 64);
    lemma_base64_char(m / 64 % 64, n / 64 % 64);
    lemma_base64_char(m % 64, n % 64);
    if m == n {
        lemma_triple_injective(a, b, c, d, e, f);
    }
}

/// Groups of two bytes end alike in their last character.
proof fn lemma_base64_pair(a: u8, b: u8, d: u8, e: u8)
    ensures
        base64_group(a, b, 0)[3] == base64_group(d, e, 0)[3],
{
    reveal(base64_group);
    assert(triple(a, b, 0) == 64 * (1024 * (a as int) + 4 * (b as int)));
    assert(triple(d, e, 0) == 64 * (1024 * (d as int) + 4 * (e as int)));
    assert(triple(a, b, 0) % 64 == 0);
    assert(triple(d, e, 0) % 64 == 0);
}

/// Groups of one byte end alike in their last two characters.
proof fn lemma_base64_one(a: u8, d: u8)
    ensures
        base64_group(a, 0, 0)[2] == base64_group(d, 0, 0)[2],
        base64_group(a, 0, 0)[3] == base64_group(d, 0, 0)[3],
{
    reveal(base64_group);
    assert(triple(a, 0, 0) == 64 * (1024 * (a as int)));
    assert(triple(d, 0, 0) == 64 * (1024 * (d as int)));
    assert(triple(a, 0, 0) / 64 == 64 * (16 * (a as int)));
    assert(triple(d, 0, 0) / 64 == 64 * (16 * (d as int)));
}

/// The byte at a position, or zero behind the end.
spec fn byte_or_zero(bytes: Seq<u8>, i: int) -> u8 {
    if i < bytes.len() {
        bytes[i]
    } else {
        0
    }
}

/// The characters for the first three bytes, without regard to padding.
spec fn first_group(bytes: Seq<u8>) -> Seq<char> {
    base64_group(byte_or_zero(bytes, 0), byte_or_zero(bytes, 1), byte_or_zero(bytes, 2))
}

/// How a text in Base64 begins, and what follows.
proof fn lemma_base64_begins(bytes: Seq<u8>)
    requires
        bytes.len() > 0,
    ensures
        ({
            let s = base64_text(bytes);
            let g = first_group(bytes);
            &&& s.len() >= 4
            &&& g.len() == 4
            &&& g[2] != '=' && g[3] != '='
            &&& s[0] == g[0] && s[1] == g[1]
            &&& s[2] == (if bytes.len() == 1 {
                '='
            } else {
                g[2]
            })
            &&& s[3] == (if bytes.len() <= 2 {
                '='
            } else {
                g[3]
            })
            &&& bytes.len() > 2 ==> s.skip(4) == base64_text(bytes.skip(3))
        }),
{
    let g = first_group(bytes);
    lemma_base64_group(
        byte_or_zero(bytes, 0),
        byte_or_zero(bytes, 1),
        byte_or_zero(bytes, 2),
        0,
        0,
        0,
    );
    if bytes.len() > 2 {
        assert(base64_text(bytes).skip(4) =~= base64_text(bytes.skip(3)));
    }
}

/// Different bytes are written down differently.
proof fn lemma_base64_injective(x: Seq<u8>, y: Seq<u8>)
    requires
        base64_text(x) == base64_text(y),
    ensures
        x == y,
    decreases x.len(),
{
    if x.len() > 0 {
        lemma_base64_begins(x);
    }
    if y.len() > 0 {
        lemma_base64_begins(y);
    }
    if x.len() == 0 || y.len() == 0 {
        assert(x =~= y);
    } else {
        let a = byte_or_zero(x, 0);
        let b = byte_or_zero(x, 1);
        let c = byte_or_zero(x, 2);
        let d = byte_or_zero(y, 0);
        let e = byte_or_zero(y, 1);
        let f = byte_or_zero(y, 2);
        lemma_base64_group(a, b, c, d, e, f);
        lemma_base64_pair(a, b, d, e);
        lemma_base64_one(a, d);
        if x.len() <= 2 {
            assert(x.len() == y.len());
            assert(x =~= y);
        } else {
            lemma_base64_injective(x.skip(3), y.skip(3));
            assert(x =~= seq![a, b, c] + x.skip(3));
            assert(y =~= seq![d, e, f] + y.skip(3));
        }
    }
}

/// What bytes were written down as reads back as those bytes.
pub proof fn law_base64_read_back(bytes: Seq<u8>)
    ensures
        base64_bytes(base64_text(bytes)) == Some(bytes),
{
    let s = base64_text(bytes);
    let b = choose|b: Seq<u8>| #[trigger] base64_text(b) == s;
    lemma_base64_injective(b, bytes);
}

/// The number that a character of the standard alphabet stands for.
pub open spec fn char_value(c: char) -> int {
    if 'A' <= c && c <= 'Z' {
        c as int - 'A' as int
    } else if 'a' <= c && c <= 'z' {
        26 + (c as int - 'a' as int)
    } else if '0' <= c && c <= '9' {
        52 + (c as int - '0' as int)
    } else if c == '+' {
        62
    } else if c == '/' {
        63
    } else {
        -1
    }
}

/// Every three bytes are written down as four characters, in the bytes' place, which stand for six bits
/// of them each, the highest first.
pub proof fn law_characters_stand_for_bytes(bytes: Seq<u8>, i: int)
    requires
        0 <= i,
        3 * i + 3 <= bytes.len(),
    ensures
        ({
            let s = base64_text(bytes);
            &&& s.len() >= 4 * i + 4
            &&& 0 <= char_value(s[4 * i]) && 0 <= char_value(s[4 * i + 1])
            &&& 0 <= char_value(s[4 * i + 2]) && 0 <= char_value(s[4 * i + 3])
            &&& 262144 * char_value(s[4 * i]) + 4096 * char_value(s[4 * i + 1]) + 64 * char_value(
                s[4 * i + 2],
            ) + char_value(s[4 * i + 3]) == 65536 * (bytes[3 * i] as int) + 256 * (bytes[3 * i
                + 1] as int) + bytes[3 * i + 2] as int
        }),
    decreases i,
{
    let s = base64_text(bytes);
    let g = base64_group(bytes[0], bytes[1], bytes[2]);
    let rest = base64_text(bytes.skip(3));
    lemma_base64_group(bytes[0], bytes[1], bytes[2], 0, 0, 0);
    assert(s == g + rest);
    if i == 0 {
        reveal(base64_group);
        let n = triple(bytes[0], bytes[1], bytes[2]);
        lemma_triple(bytes[0], bytes[1], bytes[2]);
        lemma_char_value(n / 262144);
        lemma_char_value(n / 4096 % 64);
        lemma_char_value(n / 64 % 64);
        lemma_char_value(n % 64);
        assert(s[0] == g[0] && s[1] == g[1] && s[2] == g[2] && s[3] == g[3]);
    } else {
        law_characters_stand_for_bytes(bytes.skip(3), i - 1);
        assert(s[4 * i] == rest[4 * (i - 1)]);
        assert(s[4 * i + 1] == rest[4 * (i - 1) + 1]);
        assert(s[4 * i + 2] == rest[4 * (i - 1) + 2]);
        assert(s[4 * i + 3] == rest[4 * (i - 1) + 3]);
        assert(bytes.skip(3)[3 * (i - 1)] == bytes[3 * i]);
        assert(bytes.skip(3)[3 * (i - 1) + 1] == bytes[3 * i + 1]);
        assert(bytes.skip(3)[3 * (i - 1) + 2] == bytes[3 * i + 2]);
    }
}

/// A character stands for the number that it was made for.
proof fn lemma_char_value(n: int)
    requires
        0 <= n < 64,
    ensures
        char_value(base64_char(n)) == n,
{
}

/// `decode` of the `base64` crate's standard engine, which takes nothing but the standard alphabet,
/// canonical padding and unused bits that are zero: the bytes whose encoding the text is, if it is
/// one.
#[verifier::external_body]
fn base64_engine_decode(s: &str) -> (r: Option<Vec<u8>>)
    ensures
        match r {
            Some(bytes) => base64_text(bytes@) == s@,
            None => forall|b: Seq<u8>| #[trigger] base64_text(b) != s@,
        },
{
    base64::Engine::decode(&base64::engine::general_purpose::STANDARD, s).ok()
}

/// The bytes that a text in Base64 stands for.
pub fn base64_decode(s: &str) -> (r: Option<Vec<u8>>)
    ensures
        match r {
            Some(bytes) => base64_bytes(s@) == Some(bytes@),
            None => base64_bytes(s@) is None,
        },
{
    let r = base64_engine_decode(s);
    proof {
        if r is Some {
            law_base64_read_back(r->0@);
        }
    }
    r
}

/// `String::from_utf8`: the text that the bytes encode, if they are valid UTF-8.
#[verifier::external_body]
pub(crate) fn utf8_text(bytes: Vec<u8>) -> (r: Option<String>)
    ensures
        match r {
            Some(s) => vstd::utf8::encode_utf8(s@) == bytes@,
            None => !vstd::utf8::valid_utf8(bytes@),
        },
{
    String::from_utf8(bytes).ok()
}

} // verus!
