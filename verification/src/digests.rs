//! Message digests, computed by the `md-5` and `sha2` crates and written down by `hex`.
use vstd::prelude::*;

verus! {

/// The MD5 digest of the bytes.
pub uninterp spec fn md5_sum(bytes: Seq<u8>) -> Seq<u8>;

/// The SHA-256 digest of the bytes.
pub uninterp spec fn sha256_sum(bytes: Seq<u8>) -> Seq<u8>;

/// The character for a number below sixteen.
pub open spec fn hex_digit(n: int) -> char {
    "0123456789abcdef"@[n]
}

/// The bytes written down: two digits each, the higher one first.
pub open spec fn hex_text(bytes: Seq<u8>) -> Seq<char>
    decreases bytes.len(),
{
    if bytes.len() == 0 {
        Seq::empty()
    } else {
        hex_text(bytes.drop_last()).push(hex_digit(bytes.last() as int / 16)).push(
            hex_digit(bytes.last() as int % 16),
        )
    }
}

/// `md5::Md5`, fed with all the bytes at once: the digest, which has 16 bytes.
#[verifier::external_body]
fn md5_digest(bytes: &[u8]) -> (r: Vec<u8>)
    ensures
        r@ == md5_sum(bytes@),
        r@.len() == 16,
{
    let mut hasher = <md5::Md5 as md5::Digest>::new();
    md5::Digest::update(&mut hasher, bytes);
    md5::Digest::finalize(hasher).to_vec()
}

/// `sha2::Sha256`, fed with all the bytes at once: the digest, which has 32 bytes.
#[verifier::external_body]
fn sha256_digest(bytes: &[u8]) -> (r: Vec<u8>)
    ensures
        r@ == sha256_sum(bytes@),
        r@.len() == 32,
{
    let mut hasher = <sha2::Sha256 as sha2::Digest>::new();
    sha2::Digest::update(&mut hasher, bytes);
    sha2::Digest::finalize(hasher).to_vec()
}

/// `hex::encode`: two digits for each byte, the higher one first, with letters in lower case.
#[verifier::external_body]
fn hex_encode(bytes: &Vec<u8>) -> (r: String)
    ensures
        r@ == hex_text(bytes@),
{
    hex::encode(bytes)
}

/// Written down, bytes take two characters each.
proof fn lemma_hex_length(bytes: Seq<u8>)
    ensures
        hex_text(bytes).len() == 2 * bytes.len(),
    decreases bytes.len(),
{
    if bytes.len() > 0 {
        lemma_hex_length(bytes.drop_last());
    }
}

/// The number that a digit stands for: its place among `0` to `9`, or ten and its place among `a` to
/// `f`.
pub open spec fn digit_value(c: char) -> int {
    if '0' <= c && c <= '9' {
        c as int - '0' as int
    } else {
        10 + (c as int - 'a' as int)
    }
}

/// Written down, every byte takes two digits in the byte's place, and they stand for the byte: each is
/// one of `0` to `9` and `a` to `f`, and sixteen times the first and the second make the byte.
pub proof fn law_digits_stand_for_bytes(bytes: Seq<u8>, i: int)
    requires
        0 <= i < bytes.len(),
    ensures
        ({
            let s = hex_text(bytes);
            let a = s[2 * i];
            let b = s[2 * i + 1];
            &&& s.len() == 2 * bytes.len()
            &&& ('0' <= a && a <= '9') || ('a' <= a && a <= 'f')
            &&& ('0' <= b && b <= '9') || ('a' <= b && b <= 'f')
            &&& 16 * digit_value(a) + digit_value(b) == bytes[i]
        }),
    decreases bytes.len(),
{
    let s = hex_text(bytes);
    let front = bytes.drop_last();
    let n = front.len() as int;
    lemma_hex_length(bytes);
    lemma_hex_length(front);
    if i < n {
        law_digits_stand_for_bytes(front, i);
        assert(s[2 * i] == hex_text(front)[2 * i]);
        assert(s[2 * i + 1] == hex_text(front)[2 * i + 1]);
    } else {
        let byte = bytes[i] as int;
        assert(bytes.last() == bytes[i]);
        lemma_hex_digit(byte / 16);
        lemma_hex_digit(byte % 16);
        assert(s[2 * i] == hex_digit(byte / 16));
        assert(s[2 * i + 1] == hex_digit(byte % 16));
    }
}

/// A digit stands for the number that it was made for.
proof fn lemma_hex_digit(n: int)
    requires
        0 <= n < 16,
    ensures
        digit_value(hex_digit(n)) == n,
        ('0' <= hex_digit(n) && hex_digit(n) <= '9') || ('a' <= hex_digit(n) && hex_digit(n)
            <= 'f'),
{
    reveal_strlit("0123456789abcdef");
}

/// The MD5 and the SHA-256 digest of the bytes, written down: 32 and 64 characters.
pub fn digest_hex(bytes: &[u8]) -> (r: (String, String))
    ensures
        r.0@ == hex_text(md5_sum(bytes@)),
        r.1@ == hex_text(sha256_sum(bytes@)),
        r.0@.len() == 32,
        r.1@.len() == 64,
{
    let md5 = md5_digest(bytes);
    let sha256 = sha256_digest(bytes);
    proof {
        lemma_hex_length(md5@);
        lemma_hex_length(sha256@);
    }
    (hex_encode(&md5), hex_encode(&sha256))
}

} // verus!
