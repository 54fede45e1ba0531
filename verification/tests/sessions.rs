use pypi_index::auth::{
    gate, handle_auth, logout, open_session, require_auth, secure_cookies, session_cookie, validate_jwt, CookieChange,
    CrossSite, Redirection,
};
use pypi_index::encodings::base64_decode;
use pypi_index::extractors::{authenticate, basic_credentials, let_in, AuthFailure};
use pypi_index::jwt::validate_token;

const SECRET: &str = "a secret for tests";

fn token(members: &[(&str, serde_json::Value)], secret: &str) -> String {
    let mut claims = serde_json::Map::new();
    for (key, value) in members {
        claims.insert(key.to_string(), value.clone());
    }
    let key = jsonwebtoken::EncodingKey::from_secret(secret.as_bytes());
    jsonwebtoken::encode(&jsonwebtoken::Header::default(), &claims, &key).unwrap()
}

fn text(s: &str) -> serde_json::Value {
    serde_json::Value::from(s)
}

fn far() -> serde_json::Value {
    serde_json::Value::from(4_000_000_000u64)
}

fn session_token(secret: &str) -> String {
    let members = [("sub", text("s")), ("exp", far()), ("user_id", text("u")), ("token_type", text("access"))];
    token(&members, secret)
}

fn header(pair: &str) -> String {
    let encoded = base64::Engine::encode(&base64::engine::general_purpose::STANDARD, pair);
    format!("Basic {}", encoded)
}

fn described(r: &Redirection) -> Vec<String> {
    r.changes
        .iter()
        .map(|c| match c {
            CookieChange::Remove(name) => format!("-{}", name),
            CookieChange::Put(c) => {
                assert_eq!(c.path, "/");
                assert_eq!(c.same_site, CrossSite::Lax);
                format!("{}={} age={} http_only={} secure={}", c.name, c.value, c.max_age_secs, c.http_only, c.secure)
            }
        })
        .collect()
}

#[test]
fn session_tokens() {
    assert!(validate_jwt(&session_token(SECRET), SECRET));
    assert!(!validate_jwt(&session_token("other"), SECRET));
    assert!(!validate_jwt("", SECRET));
    let expired = [
        ("sub", text("s")),
        ("exp", serde_json::Value::from(1u64)),
        ("user_id", text("u")),
        ("token_type", text("access")),
    ];
    assert!(!validate_jwt(&token(&expired, SECRET), SECRET));
    assert!(!validate_jwt(&token(&[("exp", far())], SECRET), SECRET));
}

#[test]
fn upload_tokens() {
    assert!(validate_token(&token(&[("exp", far())], SECRET), SECRET));
    assert!(validate_token(&token(&[("exp", far()), ("x", text("y"))], SECRET), SECRET));
    assert!(!validate_token(&token(&[("exp", far())], "other"), SECRET));
    assert!(!validate_token(&token(&[("exp", serde_json::Value::from(1u64))], SECRET), SECRET));
    assert!(!validate_token(&token(&[("exp", serde_json::Value::from(4.5e9))], SECRET), SECRET));
    assert!(!validate_token(&token(&[("x", far())], SECRET), SECRET));
    assert!(!validate_token("a.b.c", SECRET));
}

#[test]
fn last_expiry_of_all_passes_at_any_time() {
    let end = serde_json::Value::from(u64::MAX);
    assert!(validate_token(&token(&[("exp", end.clone())], SECRET), SECRET));
    let members = [("sub", text("s")), ("exp", end.clone()), ("user_id", text("u")), ("token_type", text("access"))];
    assert!(validate_jwt(&token(&members, SECRET), SECRET));
    assert!(!validate_token(&token(&[("exp", end), ("aud", text("a"))], SECRET), SECRET));
}

#[test]
fn secure_unless_debugging() {
    assert!(secure_cookies(&None));
    assert!(!secure_cookies(&Some("True".to_string())));
    assert!(!secure_cookies(&Some("1".to_string())));
    assert!(secure_cookies(&Some("0".to_string())));
    assert!(secure_cookies(&Some("false".to_string())));
}

#[test]
fn cookies_of_a_session() {
    let c = session_cookie("access_token", "t".to_string(), 86400, &Some("1".to_string()));
    assert_eq!((c.name.as_str(), c.value.as_str(), c.max_age_secs), ("access_token", "t", 86400));
    assert!(c.http_only && !c.secure);
    assert_eq!((c.path.as_str(), c.same_site), ("/", CrossSite::Lax));
}

#[test]
fn sent_to_the_login_page() {
    let r = gate(false, "/details/x", "https://iam".to_string(), &None).unwrap_err();
    assert_eq!(r.location, "https://iam");
    let wanted = ["-access_token", "-refresh_token", "intended_path=/details/x age=600 http_only=false secure=true"];
    assert_eq!(described(&r), wanted);
    assert!(gate(true, "/details/x", "https://iam".to_string(), &None).is_ok());
}

#[test]
fn sessions_need_a_token_that_passes() {
    let login = || "https://iam".to_string();
    let good = session_token(SECRET);
    assert!(require_auth(Some(&good), SECRET, "/x", login(), &None).is_ok());
    assert!(require_auth(None, SECRET, "/x", login(), &None).is_err());
    assert!(require_auth(Some("junk"), SECRET, "/x", login(), &None).is_err());
    assert!(require_auth(Some(&good), "other", "/x", login(), &None).is_err());
}

#[test]
fn session_begins() {
    let debug = Some("true".to_string());
    let r = open_session(true, "a".to_string(), "r".to_string(), Some("/details/x".to_string()), &debug).unwrap();
    assert_eq!(r.location, "/details/x");
    let wanted = [
        "access_token=a age=86400 http_only=true secure=false",
        "refresh_token=r age=604800 http_only=true secure=false",
        "-intended_path",
    ];
    assert_eq!(described(&r), wanted);
    let r = open_session(true, "a".to_string(), "r".to_string(), None, &None).unwrap();
    assert_eq!(r.location, "/");
    assert_eq!(open_session(false, "a".to_string(), "r".to_string(), None, &None).unwrap_err(), 401);
}

#[test]
fn login_leads_back() {
    let away = gate(false, "/details/x", "https://iam".to_string(), &None).unwrap_err();
    let remembered = away.changes.into_iter().find_map(|c| match c {
        CookieChange::Put(c) if c.name == "intended_path" => Some(c.value),
        _ => None,
    });
    let on = open_session(true, "a".to_string(), "r".to_string(), remembered, &None).unwrap();
    assert_eq!(on.location, "/details/x");
}

#[test]
fn login_checks_the_token() {
    let good = session_token(SECRET);
    assert!(handle_auth(good, "r".to_string(), None, SECRET, &None).is_ok());
    assert_eq!(handle_auth("junk".to_string(), "r".to_string(), None, SECRET, &None).unwrap_err(), 401);
}

#[test]
fn session_ends() {
    let r = logout();
    assert_eq!(r.location, "/");
    assert_eq!(described(&r), ["-access_token", "-refresh_token", "-intended_path"]);
}

#[test]
fn base64_is_canonical() {
    assert_eq!(base64_decode("").as_deref(), Some(&b""[..]));
    assert_eq!(base64_decode("Zg==").as_deref(), Some(&b"f"[..]));
    assert_eq!(base64_decode("Zm8=").as_deref(), Some(&b"fo"[..]));
    assert_eq!(base64_decode("Zm9v").as_deref(), Some(&b"foo"[..]));
    assert_eq!(base64_decode("+/8=").as_deref(), Some(&[0xfb, 0xff][..]));
    for bad in ["Zg", "Zg=", "Zh==", "Zm9=", "Z===", "Zm9v=", "=", "Zm 9v", "Zm9v\n", "Zm-_"] {
        assert_eq!(base64_decode(bad), None, "{}", bad);
    }
}

#[test]
fn credentials_in_a_header() {
    let c = basic_credentials(Some(&header("__token__:pw:with:colons"))).unwrap();
    assert_eq!((c.username.as_str(), c.password.as_str()), ("__token__", "pw:with:colons"));
    let c = basic_credentials(Some(&format!("{}  ", header("ü:ñ")))).unwrap();
    assert_eq!((c.username.as_str(), c.password.as_str()), ("ü", "ñ"));
    let c = basic_credentials(Some(&header(":p"))).unwrap();
    assert_eq!((c.username.as_str(), c.password.as_str()), ("", "p"));
}

#[test]
fn headers_without_credentials() {
    assert_eq!(basic_credentials(None).unwrap_err(), AuthFailure::NoHeader);
    assert_eq!(basic_credentials(Some("Bearer x")).unwrap_err(), AuthFailure::OtherScheme);
    assert_eq!(basic_credentials(Some("basic x")).unwrap_err(), AuthFailure::OtherScheme);
    assert_eq!(basic_credentials(Some("Basic !!")).unwrap_err(), AuthFailure::NotBase64);
    assert_eq!(basic_credentials(Some("Basic /w==")).unwrap_err(), AuthFailure::NotText);
    assert_eq!(basic_credentials(Some(&header("user:"))).unwrap_err(), AuthFailure::NoPassword);
    assert_eq!(basic_credentials(Some(&header("user"))).unwrap_err(), AuthFailure::NoPassword);
}

#[test]
fn authentication() {
    let good = header(&format!("me:{}", token(&[("exp", far())], SECRET)));
    assert_eq!(authenticate(Some(&good), Some(SECRET)).unwrap().username, "me");
    assert_eq!(authenticate(Some(&good), Some("other")).unwrap_err(), AuthFailure::BadToken);
    assert_eq!(authenticate(Some(&good), None).unwrap_err(), AuthFailure::NoSecret);
    assert_eq!(authenticate(None, Some(SECRET)).unwrap_err(), AuthFailure::NoHeader);
    assert_eq!(authenticate(Some(&header("me:junk")), Some(SECRET)).unwrap_err(), AuthFailure::BadToken);
    assert_eq!(let_in("me".to_string(), true).unwrap().username, "me");
    assert_eq!(let_in("me".to_string(), false).unwrap_err(), AuthFailure::BadToken);
}
