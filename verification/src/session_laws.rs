//! Laws of sessions: what the answers set, drop and lead to, and what credentials amount to.
use crate::auth;
use crate::auth::{ChangeView, CookieView, CrossSite};
use crate::encodings;
use crate::extractors;
use crate::extractors::AuthFailure;
use crate::jwt;
use crate::text;
use crate::text_laws;
use vstd::prelude::*;

verus! {

/// The cookie with a name, a value and an age, for all of the site and for links from other sites, kept
/// from scripts and from unencrypted connections as said.
pub open spec fn site_cookie(
    name: Seq<char>,
    value: Seq<char>,
    max_age_secs: i64,
    http_only: bool,
    secure: bool,
) -> ChangeView {
    ChangeView::Put(
        CookieView {
            name,
            value,
            path: "/"@,
            same_site: CrossSite::Lax,
            max_age_secs,
            http_only,
            secure,
        },
    )
}

/// Whoever is sent to the login page is sent to the address that it has, without tokens, and with the
/// path that was asked for remembered for ten minutes.
pub proof fn law_way_to_login(
    current_path: Seq<char>,
    login_url: Seq<char>,
    debug: Option<Seq<char>>,
)
    ensures
        ({
            let away = auth::to_login(current_path, login_url, debug);
            &&& away.location == login_url
            &&& away.changes == seq![
                ChangeView::Remove("access_token"@),
                ChangeView::Remove("refresh_token"@),
                site_cookie("intended_path"@, current_path, 600, false, auth::secure(debug)),
            ]
        }),
{
}

/// Whoever comes from the login page is sent to the path that was asked for, or to the first page, with
/// the access token for a day and the refresh token for a week, both kept from scripts.
pub proof fn law_way_on(
    access_token: Seq<char>,
    refresh_token: Seq<char>,
    intended: Option<Seq<char>>,
    debug: Option<Seq<char>>,
)
    ensures
        ({
            let on = auth::from_login(access_token, refresh_token, intended, debug);
            &&& intended matches Some(path) ==> on.location == path
            &&& intended is None ==> on.location == "/"@
            &&& on.changes == seq![
                site_cookie("access_token"@, access_token, 86400, true, auth::secure(debug)),
                site_cookie("refresh_token"@, refresh_token, 604800, true, auth::secure(debug)),
                ChangeView::Remove("intended_path"@),
            ]
        }),
{
}

/// Whoever signs out is sent to the first page with nothing left.
pub proof fn law_way_out()
    ensures
        auth::signed_out().location == "/"@,
        auth::signed_out().changes == seq![
            ChangeView::Remove("access_token"@),
            ChangeView::Remove("refresh_token"@),
            ChangeView::Remove("intended_path"@),
        ],
{
}

/// The letter `low` or the one that stands 32 places before it, its capital.
pub open spec fn either_case(c: char, low: char) -> bool {
    c == low || (c as int) + 32 == low as int
}

/// Cookies go over unencrypted connections in debugging runs and in no others: where the environment
/// says `true`, in whatever letters, or `1`.
pub proof fn law_debugging_runs(v: Seq<char>)
    requires
        vstd::utf8::is_ascii_chars(v),
    ensures
        auth::secure(None),
        !auth::secure(Some(v)) <==> v == seq!['1'] || (v.len() == 4 && either_case(v[0], 't')
            && either_case(v[1], 'r') && either_case(v[2], 'u') && either_case(v[3], 'e')),
{
    reveal_strlit("true");
    reveal_strlit("1");
    let low = text::lowered(v);
    assert(low.len() == v.len());
    if low == "1"@ {
        assert(low[0] == text::ascii_lower(v[0]));
        assert(v =~= seq!['1']);
    }
    if v == seq!['1'] {
        assert(low =~= "1"@);
    }
    if low == "true"@ {
        assert(low[0] == text::ascii_lower(v[0]));
        assert(low[1] == text::ascii_lower(v[1]));
        assert(low[2] == text::ascii_lower(v[2]));
        assert(low[3] == text::ascii_lower(v[3]));
    }
    if v.len() == 4 && either_case(v[0], 't') && either_case(v[1], 'r') && either_case(v[2], 'u')
        && either_case(v[3], 'e') {
        assert(low =~= "true"@);
    }
}

/// When a token expires is what its claim `exp` says, and a token without one does not say.
pub proof fn law_expiry_claim(token: Seq<char>, secret: Seq<char>, expiry: u64)
    ensures
        jwt::token_expiry(token, secret) == Some(expiry) <==> {
            &&& jwt::signed_numbers(token, secret) is Some
            &&& jwt::signed_numbers(token, secret)->0.contains_key("exp"@)
            &&& jwt::signed_numbers(token, secret)->0["exp"@] == expiry
        },
        jwt::expiring_token(token, secret) <==> jwt::signed_numbers(token, secret) is Some
            && jwt::signed_numbers(token, secret)->0.contains_key("exp"@),
{
}

/// A token passes as long as the oldest expiry that does is not behind its own, and one that expires
/// later passes where it does; a token that does not say when it expires never passes.
pub proof fn law_expired_tokens(expiry: u64, later: u64, oldest: u64)
    requires
        expiry <= later,
    ensures
        jwt::passes(Some(expiry), expiry),
        jwt::passes(Some(expiry), oldest) ==> jwt::passes(Some(later), oldest),
        expiry < oldest ==> !jwt::passes(Some(expiry), oldest),
        !jwt::passes(None, oldest),
{
}

/// The header of the Basic scheme with the bytes written down in Base64, and white space around them.
pub open spec fn header_with(before: Seq<char>, bytes: Seq<u8>, behind: Seq<char>) -> Seq<char> {
    "Basic "@ + (before + encodings::base64_text(bytes) + behind)
}

/// A header without the word `Basic` and a space at its beginning carries no credentials, and neither
/// does none.
pub proof fn law_other_schemes(h: Seq<char>)
    requires
        h.len() < 6 || h.take(6) != seq!['B', 'a', 's', 'i', 'c', ' '],
    ensures
        extractors::request_credentials(None) == Err::<(Seq<char>, Seq<char>), AuthFailure>(
            AuthFailure::NoHeader,
        ),
        extractors::request_credentials(Some(h)) == Err::<(Seq<char>, Seq<char>), AuthFailure>(
            AuthFailure::OtherScheme,
        ),
{
    reveal_strlit("Basic ");
    assert("Basic "@ =~= seq!['B', 'a', 's', 'i', 'c', ' ']);
}

/// What the bytes in a header amount to: a name and a password, which stand before and behind the first
/// colon, and white space around the bytes does not count. Bytes that are not text carry none, and a
/// text without a colon, or with nothing behind the first, has no password.
pub proof fn law_credentials(
    before: Seq<char>,
    pair: Seq<char>,
    behind: Seq<char>,
    username: Seq<char>,
    password: Seq<char>,
)
    requires
        text_laws::blank(before),
        text_laws::blank(behind),
    ensures
        ({
            let r = extractors::request_credentials(
                Some(header_with(before, vstd::utf8::encode_utf8(pair), behind)),
            );
            let none = Err::<(Seq<char>, Seq<char>), AuthFailure>(AuthFailure::NoPassword);
            &&& !pair.contains(':') ==> r == none
            &&& pair == username + seq![':'] + password && !username.contains(':') ==> r == (
            if password.len() == 0 {
                none
            } else {
                Ok((username, password))
            })
        }),
{
    let bytes = vstd::utf8::encode_utf8(pair);
    lemma_header_bytes(before, bytes, behind);
    vstd::utf8::encode_utf8_valid_utf8(pair);
    vstd::utf8::encode_utf8_decode_utf8(pair);
    text::lemma_index_of(pair, ':');
    if pair == username + seq![':'] + password && !username.contains(':') {
        let k = username.len() as int;
        assert(pair[k] == ':');
        assert forall|j: int| 0 <= j < k implies pair[j] != ':' by {
            assert(pair[j] == username[j]);
        }
        text::lemma_index_of_is(pair, ':', k);
        assert(pair.take(k) =~= username);
        assert(pair.skip(k + 1) =~= password);
    }
}

/// Bytes in a header that are not text carry no credentials.
pub proof fn law_credentials_are_text(before: Seq<char>, bytes: Seq<u8>, behind: Seq<char>)
    requires
        text_laws::blank(before),
        text_laws::blank(behind),
        !vstd::utf8::valid_utf8(bytes),
    ensures
        extractors::request_credentials(Some(header_with(before, bytes, behind))) == Err::<
            (Seq<char>, Seq<char>),
            AuthFailure,
        >(AuthFailure::NotText),
{
    lemma_header_bytes(before, bytes, behind);
}

/// A header that holds no bytes in Base64 carries no credentials.
pub proof fn law_credentials_are_bytes(before: Seq<char>, t: Seq<char>, behind: Seq<char>)
    requires
        text_laws::blank(before),
        text_laws::blank(behind),
        text_laws::tight(t),
        forall|b: Seq<u8>| #[trigger] encodings::base64_text(b) != t,
    ensures
        extractors::request_credentials(Some("Basic "@ + (before + t + behind))) == Err::<
            (Seq<char>, Seq<char>),
            AuthFailure,
        >(AuthFailure::NotBase64),
{
    let h = "Basic "@ + (before + t + behind);
    lemma_behind_scheme(before + t + behind);
    text_laws::law_trimmed(before, t, behind);
}

/// What stands behind the scheme.
proof fn lemma_behind_scheme(rest: Seq<char>)
    ensures
        text::begins_with("Basic "@ + rest, extractors::BASIC_PREFIX@),
        ("Basic "@ + rest).skip(extractors::BASIC_PREFIX@.len() as int) == rest,
{
    let h = "Basic "@ + rest;
    let n = extractors::BASIC_PREFIX@.len() as int;
    assert(h.take(n) =~= extractors::BASIC_PREFIX@);
    assert(h.skip(n) =~= rest);
}

/// The bytes in a header read back.
proof fn lemma_header_bytes(before: Seq<char>, bytes: Seq<u8>, behind: Seq<char>)
    requires
        text_laws::blank(before),
        text_laws::blank(behind),
    ensures
        ({
            let h = header_with(before, bytes, behind);
            let n = extractors::BASIC_PREFIX@.len() as int;
            &&& text::begins_with(h, extractors::BASIC_PREFIX@)
            &&& encodings::base64_bytes(text::trimmed(h.skip(n))) == Some(bytes)
        }),
{
    let t = encodings::base64_text(bytes);
    lemma_behind_scheme(before + t + behind);
    extractors::lemma_base64_solid(bytes);
    text_laws::law_trimmed(before, t, behind);
    encodings::law_base64_read_back(bytes);
}

} // verus!
