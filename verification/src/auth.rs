//! Sessions for people: a token in a cookie, and the way through the login page and back.
use crate::jwt;
use crate::text;
use vstd::prelude::*;

verus! {

/// The cookie with the token that lets a session in.
pub const ACCESS_TOKEN: &'static str = "access_token";

/// The cookie with the token that renews a session.
pub const REFRESH_TOKEN: &'static str = "refresh_token";

/// The cookie with the path that was asked for before the login.
pub const INTENDED_PATH: &'static str = "intended_path";

/// Where a session begins that was not on its way anywhere.
pub const HOME: &'static str = "/";

/// How long an access token's cookie lives, in seconds.
pub const ACCESS_AGE: i64 = 86400;

/// How long a refresh token's cookie lives, in seconds.
pub const REFRESH_AGE: i64 = 604800;

/// How long the path that was asked for is remembered, in seconds.
pub const INTENDED_AGE: i64 = 600;

/// The path that the cookies are for: all of the site.
pub const COOKIE_PATH: &'static str = "/";

/// Whether a cookie is sent along with requests that come from other sites.
#[derive(Debug, Clone, Copy, PartialEq, Eq, Structural)]
pub enum CrossSite {
    /// With none of them.
    Strict,
    /// With links that are followed, and nothing else.
    Lax,
}

/// A cookie to be set.
#[derive(Debug)]
pub struct SessionCookie {
    pub name: String,
    pub value: String,
    pub path: String,
    pub same_site: CrossSite,
    pub max_age_secs: i64,
    pub http_only: bool,
    pub secure: bool,
}

/// What a `SessionCookie` holds.
pub struct CookieView {
    pub name: Seq<char>,
    pub value: Seq<char>,
    pub path: Seq<char>,
    pub same_site: CrossSite,
    pub max_age_secs: i64,
    pub http_only: bool,
    pub secure: bool,
}

impl View for SessionCookie {
    type V = CookieView;

    open spec fn view(&self) -> CookieView {
        CookieView {
            name: self.name@,
            value: self.value@,
            path: self.path@,
            same_site: self.same_site,
            max_age_secs: self.max_age_secs,
            http_only: self.http_only,
            secure: self.secure,
        }
    }
}

/// A change to the cookies of a session.
#[derive(Debug)]
pub enum CookieChange {
    Remove(String),
    Put(SessionCookie),
}

/// What a `CookieChange` holds.
pub enum ChangeView {
    Remove(Seq<char>),
    Put(CookieView),
}

impl View for CookieChange {
    type V = ChangeView;

    open spec fn view(&self) -> ChangeView {
        match self {
            CookieChange::Remove(name) => ChangeView::Remove(name@),
            CookieChange::Put(cookie) => ChangeView::Put(cookie@),
        }
    }
}

/// What a list of `CookieChange` holds.
pub open spec fn changes_held(changes: Seq<CookieChange>) -> Seq<ChangeView> {
    Seq::new(changes.len(), |i: int| changes[i]@)
}

/// An answer that changes cookies and sends the browser elsewhere.
#[derive(Debug)]
pub struct Redirection {
    pub changes: Vec<CookieChange>,
    pub location: String,
}

/// What a `Redirection` holds.
#[verifier::ext_equal]
pub struct RedirectionView {
    pub changes: Seq<ChangeView>,
    pub location: Seq<char>,
}

impl View for Redirection {
    type V = RedirectionView;

    open spec fn view(&self) -> RedirectionView {
        RedirectionView { changes: changes_held(self.changes@), location: self.location@ }
    }
}

/// Whether a token lets a session in: if and only if it is signed with the secret, makes the claims of a
/// session, and its expiry is not older than the oldest that passes at the time of the call.
pub fn validate_jwt(token: &str, secret: &str) -> (r: bool)
    ensures
        exists|oldest: u64|
            r == #[trigger] jwt::passes(jwt::session_expiry(token@, secret@), oldest),
{
    jwt::decode_session(token, secret)
}

/// Whether cookies are kept to encrypted connections: always, unless the environment says that this
/// is a debugging run.
pub open spec fn secure(debug: Option<Seq<char>>) -> bool {
    match debug {
        Some(v) => text::lowered(v) != "true"@ && text::lowered(v) != "1"@,
        None => true,
    }
}

/// Whether cookies are kept to encrypted connections, given the environment's word on debugging.
pub fn secure_cookies(debug: &Option<String>) -> (r: bool)
    ensures
        r == secure(text::opt_text(*debug)),
        debug is None ==> r,
{
    match debug {
        Some(v) => {
            let low = text::to_lower(v);
            !text::same_text(&low, "true") && !text::same_text(&low, "1")
        },
        None => true,
    }
}

/// A cookie with a session's token.
pub fn session_cookie(name: &str, value: String, max_age_secs: i64, debug: &Option<String>) -> (r:
    SessionCookie)
    ensures
        r@ == (CookieView {
            name: name@,
            value: value@,
            path: COOKIE_PATH@,
            same_site: CrossSite::Lax,
            max_age_secs,
            http_only: true,
            secure: secure(text::opt_text(*debug)),
        }),
        r.path@ == "/"@,
{
    SessionCookie {
        name: name.to_owned(),
        value,
        path: COOKIE_PATH.to_owned(),
        same_site: CrossSite::Lax,
        max_age_secs,
        http_only: true,
        secure: secure_cookies(debug),
    }
}

/// The way to the login page: the tokens are dropped, and the path that was asked for is remembered.
pub open spec fn to_login(
    current_path: Seq<char>,
    login_url: Seq<char>,
    debug: Option<Seq<char>>,
) -> RedirectionView {
    RedirectionView {
        changes: seq![
            ChangeView::Remove(ACCESS_TOKEN@),
            ChangeView::Remove(REFRESH_TOKEN@),
            ChangeView::Put(
                CookieView {
                    name: INTENDED_PATH@,
                    value: current_path,
                    path: COOKIE_PATH@,
                    same_site: CrossSite::Lax,
                    max_age_secs: INTENDED_AGE,
                    http_only: false,
                    secure: secure(debug),
                },
            ),
        ],
        location: login_url,
    }
}

/// Lets a session through whose token passed, and sends any other to the login page.
pub fn gate(
    token_passed: bool,
    current_path: &str,
    login_url: String,
    debug: &Option<String>,
) -> (r: Result<(), Redirection>)
    ensures
        r is Ok <==> token_passed,
        r matches Err(away) ==> away@ == to_login(current_path@, login_url@, text::opt_text(*debug)),
        r matches Err(away) ==> away.location@ == login_url@,
{
    if token_passed {
        return Ok(());
    }
    let mut changes: Vec<CookieChange> = Vec::new();
    changes.push(CookieChange::Remove(ACCESS_TOKEN.to_owned()));
    changes.push(CookieChange::Remove(REFRESH_TOKEN.to_owned()));
    changes.push(
        CookieChange::Put(
            SessionCookie {
                name: INTENDED_PATH.to_owned(),
                value: current_path.to_owned(),
                path: COOKIE_PATH.to_owned(),
                same_site: CrossSite::Lax,
                max_age_secs: INTENDED_AGE,
                http_only: false,
                secure: secure_cookies(debug),
            },
        ),
    );
    let away = Redirection { changes, location: login_url };
    assert(away@ =~= to_login(current_path@, login_url@, text::opt_text(*debug)));
    Err(away)
}

/// Lets a session through if its access token passes, and sends it to the login page otherwise. A
/// session without a token never passes; one with a token does if and only if the token is in order and
/// its expiry is not older than the oldest that passes at the time of the call.
pub fn require_auth(
    access_token: Option<&str>,
    secret: &str,
    current_path: &str,
    login_url: String,
    debug: &Option<String>,
) -> (r: Result<(), Redirection>)
    ensures
        access_token is None ==> r is Err,
        access_token is Some ==> exists|oldest: u64|
            r is Ok == #[trigger] jwt::passes(
                jwt::session_expiry(access_token->0@, secret@),
                oldest,
            ),
        r is Ok ==> access_token is Some && jwt::session_claims(access_token->0@, secret@),
        r matches Err(away) ==> away@ == to_login(current_path@, login_url@, text::opt_text(*debug)),
{
    let passed: bool = match access_token {
        Some(token) => validate_jwt(token, secret),
        None => false,
    };
    gate(passed, current_path, login_url, debug)
}

/// The way on from the login page: the tokens are kept, and the path that was asked for is gone to and
/// forgotten.
pub open spec fn from_login(
    access_token: Seq<char>,
    refresh_token: Seq<char>,
    intended: Option<Seq<char>>,
    debug: Option<Seq<char>>,
) -> RedirectionView {
    RedirectionView {
        changes: seq![
            ChangeView::Put(
                CookieView {
                    name: ACCESS_TOKEN@,
                    value: access_token,
                    path: COOKIE_PATH@,
                    same_site: CrossSite::Lax,
                    max_age_secs: ACCESS_AGE,
                    http_only: true,
                    secure: secure(debug),
                },
            ),
            ChangeView::Put(
                CookieView {
                    name: REFRESH_TOKEN@,
                    value: refresh_token,
                    path: COOKIE_PATH@,
                    same_site: CrossSite::Lax,
                    max_age_secs: REFRESH_AGE,
                    http_only: true,
                    secure: secure(debug),
                },
            ),
            ChangeView::Remove(INTENDED_PATH@),
        ],
        location: match intended {
            Some(path) => path,
            None => HOME@,
        },
    }
}

/// Begins a session whose token passed; any other is answered with a status.
pub fn open_session(
    token_passed: bool,
    access_token: String,
    refresh_token: String,
    intended: Option<String>,
    debug: &Option<String>,
) -> (r: Result<Redirection, u16>)
    ensures
        match r {
            Ok(on) => token_passed && on@ == from_login(
                access_token@,
                refresh_token@,
                text::opt_text(intended),
                text::opt_text(*debug),
            ),
            Err(status) => !token_passed && status == 401,
        },
        r matches Ok(on) ==> on.location@ == (match intended {
            Some(path) => path@,
            None => "/"@,
        }),
{
    if !token_passed {
        return Err(401);
    }
    let ghost wanted = from_login(
        access_token@,
        refresh_token@,
        text::opt_text(intended),
        text::opt_text(*debug),
    );
    let mut changes: Vec<CookieChange> = Vec::new();
    changes.push(CookieChange::Put(session_cookie(ACCESS_TOKEN, access_token, ACCESS_AGE, debug)));
    changes.push(
        CookieChange::Put(session_cookie(REFRESH_TOKEN, refresh_token, REFRESH_AGE, debug)),
    );
    changes.push(CookieChange::Remove(INTENDED_PATH.to_owned()));
    let location: String = match intended {
        Some(path) => path,
        None => HOME.to_owned(),
    };
    let on = Redirection { changes, location };
    assert(on@ =~= wanted);
    Ok(on)
}

/// Begins a session with the tokens that the login page hands over, if and only if the access token is
/// in order and its expiry is not older than the oldest that passes at the time of the call.
pub fn handle_auth(
    access_token: String,
    refresh_token: String,
    intended: Option<String>,
    secret: &str,
    debug: &Option<String>,
) -> (r: Result<Redirection, u16>)
    ensures
        exists|oldest: u64|
            r is Ok == #[trigger] jwt::passes(jwt::session_expiry(access_token@, secret@), oldest),
        match r {
            Ok(on) => {
                &&& jwt::session_claims(access_token@, secret@)
                &&& on@ == from_login(
                    access_token@,
                    refresh_token@,
                    text::opt_text(intended),
                    text::opt_text(*debug),
                )
            },
            Err(status) => status == 401,
        },
{
    let passed: bool = validate_jwt(&access_token, secret);
    open_session(passed, access_token, refresh_token, intended, debug)
}

/// The end of a session: everything is dropped.
pub open spec fn signed_out() -> RedirectionView {
    RedirectionView {
        changes: seq![
            ChangeView::Remove(ACCESS_TOKEN@),
            ChangeView::Remove(REFRESH_TOKEN@),
            ChangeView::Remove(INTENDED_PATH@),
        ],
        location: HOME@,
    }
}

/// Ends a session.
pub fn logout() -> (r: Redirection)
    ensures
        r@ == signed_out(),
{
    let mut changes: Vec<CookieChange> = Vec::new();
    changes.push(CookieChange::Remove(ACCESS_TOKEN.to_owned()));
    changes.push(CookieChange::Remove(REFRESH_TOKEN.to_owned()));
    changes.push(CookieChange::Remove(INTENDED_PATH.to_owned()));
    let out = Redirection { changes, location: HOME.to_owned() };
    assert(out@ =~= signed_out());
    out
}

/// The value of a cookie after a change, where it had the given value before.
pub open spec fn cookie_after(
    name: Seq<char>,
    before: Option<Seq<char>>,
    change: ChangeView,
) -> Option<Seq<char>> {
    match change {
        ChangeView::Remove(n) => if n == name {
            None
        } else {
            before
        },
        ChangeView::Put(c) => if c.name == name {
            Some(c.value)
        } else {
            before
        },
    }
}

/// The value of a cookie after a list of changes.
pub open spec fn cookie_after_all(
    name: Seq<char>,
    before: Option<Seq<char>>,
    changes: Seq<ChangeView>,
) -> Option<Seq<char>>
    decreases changes.len(),
{
    if changes.len() == 0 {
        before
    } else {
        cookie_after(name, cookie_after_all(name, before, changes.drop_last()), changes.last())
    }
}

/// The names of the three cookies differ.
proof fn lemma_cookie_names()
    ensures
        ACCESS_TOKEN@ != REFRESH_TOKEN@,
        ACCESS_TOKEN@ != INTENDED_PATH@,
        REFRESH_TOKEN@ != INTENDED_PATH@,
{
    reveal_strlit("access_token");
    reveal_strlit("refresh_token");
    reveal_strlit("intended_path");
    assert(ACCESS_TOKEN@[0] == 'a');
    assert(REFRESH_TOKEN@[0] == 'r');
    assert(INTENDED_PATH@[0] == 'i');
}

/// Whoever is sent to the login page comes back to where they wanted to go: what is remembered on
/// the way there is what is gone to on the way on, and it is forgotten then.
pub proof fn law_login_leads_back(
    current_path: Seq<char>,
    login_url: Seq<char>,
    access_token: Seq<char>,
    refresh_token: Seq<char>,
    before: Option<Seq<char>>,
    debug: Option<Seq<char>>,
)
    ensures
        ({
            let remembered = cookie_after_all(
                INTENDED_PATH@,
                before,
                to_login(current_path, login_url, debug).changes,
            );
            let on = from_login(access_token, refresh_token, remembered, debug);
            &&& on.location == current_path
            &&& cookie_after_all(INTENDED_PATH@, remembered, on.changes) is None
        }),
{
    reveal_with_fuel(cookie_after_all, 4);
    lemma_cookie_names();
}

/// A session that begins has the tokens that it was given; one that is sent to the login page or ends
/// has none.
pub proof fn law_tokens_come_and_go(
    current_path: Seq<char>,
    login_url: Seq<char>,
    access_token: Seq<char>,
    refresh_token: Seq<char>,
    intended: Option<Seq<char>>,
    before: Option<Seq<char>>,
    debug: Option<Seq<char>>,
)
    ensures
        ({
            let on = from_login(access_token, refresh_token, intended, debug).changes;
            let away = to_login(current_path, login_url, debug).changes;
            let out = signed_out().changes;
            &&& cookie_after_all(ACCESS_TOKEN@, before, on) == Some(access_token)
            &&& cookie_after_all(REFRESH_TOKEN@, before, on) == Some(refresh_token)
            &&& cookie_after_all(ACCESS_TOKEN@, before, away) is None
            &&& cookie_after_all(REFRESH_TOKEN@, before, away) is None
            &&& cookie_after_all(ACCESS_TOKEN@, before, out) is None
            &&& cookie_after_all(REFRESH_TOKEN@, before, out) is None
            &&& cookie_after_all(INTENDED_PATH@, before, out) is None
        }),
{
    reveal_with_fuel(cookie_after_all, 4);
    lemma_cookie_names();
}

} // verus!
