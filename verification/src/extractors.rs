//! Credentials for tools: HTTP Basic authentication, with a token as the password.
use crate::encodings;
use crate::jwt;
use crate::text;
use vstd::prelude::*;

verus! {

/// A request whose credentials passed. The name is whatever the tool sent; the token in the password
/// is what counts.
#[derive(Debug)]
pub struct BasicAuth {
    pub username: String,
}

/// A name and a password.
#[derive(Debug)]
pub struct Credentials {
    pub username: String,
    pub password: String,
}

/// Why credentials do not pass. All of these are answered alike.
#[derive(Debug, Clone, Copy, PartialEq, Eq, Structural)]
pub enum AuthFailure {
    /// There is no `Authorization` header.
    NoHeader,
    /// The header is of another scheme.
    OtherScheme,
    /// What the header holds is not Base64.
    NotBase64,
    /// What the header holds is not text.
    NotText,
    /// The password is empty or missing.
    NoPassword,
    /// There is no secret to check the token against.
    NoSecret,
    /// The token does not pass.
    BadToken,
}

/// The status with which failed credentials are answered.
pub const UNAUTHORIZED: u16 = 401;

/// What a header of the Basic scheme begins with.
pub const BASIC_PREFIX: &'static str = "Basic ";

/// The credentials in a text: what stands before the first colon, and what stands behind it.
pub open spec fn credentials_in(s: Seq<char>) -> (Seq<char>, Seq<char>) {
    let k = text::index_of(s, ':');
    if k < s.len() {
        (s.take(k), s.skip(k + 1))
    } else {
        (s, Seq::empty())
    }
}

/// The credentials that a request comes with, or why there are none.
pub open spec fn request_credentials(header: Option<Seq<char>>) -> Result<
    (Seq<char>, Seq<char>),
    AuthFailure,
> {
    match header {
        None => Err(AuthFailure::NoHeader),
        Some(h) => if !text::begins_with(h, BASIC_PREFIX@) {
            Err(AuthFailure::OtherScheme)
        } else {
            match encodings::base64_bytes(text::trimmed(h.skip(BASIC_PREFIX@.len() as int))) {
                None => Err(AuthFailure::NotBase64),
                Some(bytes) => if !vstd::utf8::valid_utf8(bytes) {
                    Err(AuthFailure::NotText)
                } else {
                    let pair = credentials_in(vstd::utf8::decode_utf8(bytes));
                    if pair.1.len() == 0 {
                        Err(AuthFailure::NoPassword)
                    } else {
                        Ok(pair)
                    }
                },
            }
        },
    }
}

/// What an optional borrowed text holds.
pub open spec fn opt_str(o: Option<&str>) -> Option<Seq<char>> {
    match o {
        Some(s) => Some(s@),
        None => None,
    }
}

/// The credentials that a request comes with, given its `Authorization` header.
pub fn basic_credentials(header: Option<&str>) -> (r: Result<Credentials, AuthFailure>)
    ensures
        ({
            let wanted = request_credentials(opt_str(header));
            match r {
                Ok(c) => wanted is Ok && wanted->Ok_0 == (c.username@, c.password@),
                Err(e) => wanted is Err && wanted->Err_0 == e,
            }
        }),
{
    let h: &str = match header {
        None => {
            return Err(AuthFailure::NoHeader);
        },
        Some(h) => h,
    };
    if !text::starts_with(h, BASIC_PREFIX) {
        return Err(AuthFailure::OtherScheme);
    }
    let chars = text::chars_of(h);
    let prefix = text::chars_of(BASIC_PREFIX);
    let rest = text::text_range(&chars, prefix.len(), chars.len());
    assert(rest@ =~= h@.skip(BASIC_PREFIX@.len() as int));
    let encoded = text::trim(&rest);
    let decoded: Vec<u8> = match encodings::base64_decode(&encoded) {
        None => {
            return Err(AuthFailure::NotBase64);
        },
        Some(bytes) => bytes,
    };
    let ghost bytes = decoded@;
    let pair: String = match encodings::utf8_text(decoded) {
        None => {
            return Err(AuthFailure::NotText);
        },
        Some(s) => s,
    };
    proof {
        vstd::utf8::encode_utf8_valid_utf8(pair@);
        vstd::utf8::encode_utf8_decode_utf8(pair@);
        text::lemma_index_of(pair@, ':');
    }
    let (username, password): (String, String) = match text::split_once(&pair, ':') {
        Some(p) => p,
        None => (pair, String::new()),
    };
    if password.as_str().is_empty() {
        return Err(AuthFailure::NoPassword);
    }
    Ok(Credentials { username, password })
}

/// Lets a request with the given name in, if its token passed.
pub fn let_in(username: String, token_passed: bool) -> (r: Result<BasicAuth, AuthFailure>)
    ensures
        match r {
            Ok(auth) => token_passed && auth.username@ == username@,
            Err(e) => !token_passed && e == AuthFailure::BadToken,
        },
{
    if token_passed {
        Ok(BasicAuth { username })
    } else {
        Err(AuthFailure::BadToken)
    }
}

/// Checks a request's credentials, given its `Authorization` header and the secret. Where there are
/// both, the request is let in if and only if its token is in order and the token's expiry is not older
/// than the oldest that passes at the time of the call.
pub fn authenticate(header: Option<&str>, secret: Option<&str>) -> (r: Result<
    BasicAuth,
    AuthFailure,
>)
    ensures
        ({
            let wanted = request_credentials(opt_str(header));
            match r {
                Ok(auth) => {
                    &&& wanted is Ok
                    &&& secret is Some
                    &&& auth.username@ == wanted->Ok_0.0
                    &&& jwt::expiring_token(wanted->Ok_0.1, secret->0@)
                },
                Err(e) => {
                    &&& wanted is Err ==> e == wanted->Err_0
                    &&& wanted is Ok && secret is None ==> e == AuthFailure::NoSecret
                    &&& wanted is Ok && secret is Some ==> e == AuthFailure::BadToken
                },
            }
        }),
        request_credentials(opt_str(header)) is Ok && secret is Some ==> exists|oldest: u64|
            r is Ok == #[trigger] jwt::passes(
                jwt::token_expiry(
                    request_credentials(opt_str(header))->Ok_0.1,
                    secret->0@,
                ),
                oldest,
            ),
{
    match basic_credentials(header) {
        Err(e) => Err(e),
        Ok(c) => match secret {
            None => Err(AuthFailure::NoSecret),
            Some(s) => {
                let passed: bool = jwt::validate_token(&c.password, s);
                let_in(c.username, passed)
            },
        },
    }
}

/// The header that a tool sends for a name and a password.
pub open spec fn basic_header(username: Seq<char>, password: Seq<char>) -> Seq<char> {
    BASIC_PREFIX@ + encodings::base64_text(
        vstd::utf8::encode_utf8(username.push(':') + password),
    )
}

/// Text that neither begins nor ends with white space stays as it is when it is trimmed.
proof fn lemma_trimmed_fixed(s: Seq<char>)
    requires
        s.len() > 0 ==> !text::white_space(s[0]) && !text::white_space(s.last()),
    ensures
        text::trimmed(s) == s,
{
}

/// The characters of a text in Base64 are no white space.
pub proof fn lemma_base64_solid(bytes: Seq<u8>)
    ensures
        ({
            let s = encodings::base64_text(bytes);
            forall|i: int| 0 <= i < s.len() ==> !text::white_space(#[trigger] s[i])
        }),
    decreases bytes.len(),
{
    reveal(encodings::base64_group);
    let s = encodings::base64_text(bytes);
    if bytes.len() > 2 {
        let rest = encodings::base64_text(bytes.skip(3));
        lemma_base64_solid(bytes.skip(3));
        assert forall|i: int| 0 <= i < s.len() implies !text::white_space(#[trigger] s[i]) by {
            if i >= 4 {
                assert(s[i] == rest[i - 4]);
            }
        }
    }
}

/// What a tool sends is what is read: a name without a colon, and a password that is not empty, come
/// back from the header that is made of them.
pub proof fn law_credentials_read_back(username: Seq<char>, password: Seq<char>)
    requires
        !username.contains(':'),
        password.len() > 0,
    ensures
        request_credentials(Some(basic_header(username, password))) == Ok::<
            (Seq<char>, Seq<char>),
            AuthFailure,
        >((username, password)),
{
    let pair = username.push(':') + password;
    let bytes = vstd::utf8::encode_utf8(pair);
    let encoded = encodings::base64_text(bytes);
    let header = basic_header(username, password);
    assert(header.take(BASIC_PREFIX@.len() as int) =~= BASIC_PREFIX@);
    assert(header.skip(BASIC_PREFIX@.len() as int) =~= encoded);
    lemma_base64_solid(bytes);
    lemma_trimmed_fixed(encoded);
    encodings::law_base64_read_back(bytes);
    vstd::utf8::encode_utf8_valid_utf8(pair);
    vstd::utf8::encode_utf8_decode_utf8(pair);
    let k = username.len() as int;
    assert(pair[k] == ':');
    assert forall|j: int| 0 <= j < k implies pair[j] != ':' by {
        assert(pair[j] == username[j]);
    }
    text::lemma_index_of_is(pair, ':', k);
    assert(pair.take(k) =~= username);
    assert(pair.skip(k + 1) =~= password);
}

} // verus!
