use classroom_dashboard::auth::{
    credential, from_request_parts, refreshed, CookieKey, Session, SessionCookies, TokenStep,
};
use classroom_dashboard::error::Error;
use classroom_dashboard::oauth::{
    access_lifetime, authorization_request, begin_exchange, issue_cookies, redirect, register,
    scopes, set_tokens, AuthorizationRequest, SetIdQuery, TokenGrant,
};
use classroom_dashboard::state::{callback_url, cookie_key, AppState, Config, ConfigError};
use classroom_dashboard::tokens::Tokens;
use tower_cookies::cookie::{Cookie, CookieJar, Key};

fn key_from(seed: u8) -> CookieKey {
    let material: Vec<u8> = (0..64u8).map(|i| i.wrapping_mul(7).wrapping_add(seed)).collect();
    CookieKey::new(material).expect("64 bytes make a key")
}

fn hex_key() -> String {
    "000102030405060708090a0b0c0d0e0f101112131415161718191A1B1C1D1E1F\
     202122232425262728292a2b2c2d2e2f303132333435363738393A3B3C3D3E3F"
        .to_string()
}

#[test]
fn begun_secret_is_consumed_once() {
    let mut store = Tokens::new();
    store.begin("key".to_string(), "secret".to_string(), 1_000);
    assert_eq!(store.len(), 1);
    assert_eq!(store.consume(&"key".to_string(), 1_001).unwrap(), "secret");
    assert_eq!(store.len(), 0);
    assert!(matches!(store.consume(&"key".to_string(), 1_002), Err(Error::InvalidState)));
}

#[test]
fn unknown_key_is_invalid_state() {
    let mut store = Tokens::new();
    assert!(matches!(store.consume(&"nobody".to_string(), 0), Err(Error::InvalidState)));
    store.begin("key".to_string(), "secret".to_string(), 0);
    assert!(matches!(store.consume(&"other".to_string(), 0), Err(Error::InvalidState)));
    assert_eq!(store.len(), 1);
    assert_eq!(store.consume(&"key".to_string(), 0).unwrap(), "secret");
}

#[test]
fn secret_is_reachable_until_the_ttl_is_up() {
    let mut store = Tokens::new();
    store.begin("key".to_string(), "secret".to_string(), 1_000);
    assert_eq!(store.consume(&"key".to_string(), 1_599).unwrap(), "secret");
    store.begin("key".to_string(), "secret".to_string(), 1_000);
    assert!(matches!(store.consume(&"key".to_string(), 1_600), Err(Error::InvalidState)));
    assert_eq!(store.len(), 0);
    store.begin("key".to_string(), "secret".to_string(), 1_000);
    assert!(matches!(store.consume(&"key".to_string(), 9_999), Err(Error::InvalidState)));
}

#[test]
fn timer_evicts_only_what_is_due() {
    let mut store = Tokens::new();
    store.begin("key".to_string(), "secret".to_string(), 1_000);
    store.evict(&"key".to_string(), 1_599);
    assert_eq!(store.len(), 1);
    store.evict(&"other".to_string(), 5_000);
    assert_eq!(store.len(), 1);
    store.evict(&"key".to_string(), 1_600);
    assert_eq!(store.len(), 0);
    assert!(matches!(store.consume(&"key".to_string(), 1_600), Err(Error::InvalidState)));
}

#[test]
fn timer_of_an_earlier_attempt_spares_a_later_one() {
    let mut store = Tokens::new();
    store.begin("key".to_string(), "first".to_string(), 1_000);
    store.begin("key".to_string(), "second".to_string(), 1_300);
    assert_eq!(store.len(), 1);
    store.evict(&"key".to_string(), 1_600);
    assert_eq!(store.len(), 1);
    assert_eq!(store.consume(&"key".to_string(), 1_601).unwrap(), "second");
}

#[test]
fn keys_are_independent() {
    let mut store = Tokens::new();
    store.begin("a".to_string(), "secret a".to_string(), 0);
    store.begin("b".to_string(), "secret b".to_string(), 10);
    store.begin("c".to_string(), "secret c".to_string(), 20);
    assert_eq!(store.len(), 3);
    assert_eq!(store.consume(&"b".to_string(), 30).unwrap(), "secret b");
    assert_eq!(store.len(), 2);
    assert_eq!(store.consume(&"a".to_string(), 30).unwrap(), "secret a");
    assert_eq!(store.consume(&"c".to_string(), 30).unwrap(), "secret c");
    assert_eq!(store.len(), 0);
}

#[test]
fn deadline_stops_at_the_clocks_end() {
    let mut store = Tokens::new();
    store.begin("key".to_string(), "secret".to_string(), u64::MAX - 10);
    assert_eq!(store.consume(&"key".to_string(), u64::MAX - 1).unwrap(), "secret");
    store.begin("key".to_string(), "secret".to_string(), u64::MAX - 10);
    assert!(matches!(store.consume(&"key".to_string(), u64::MAX), Err(Error::InvalidState)));
}

#[test]
fn key_needs_sixty_four_bytes() {
    assert!(CookieKey::new(vec![1u8; 63]).is_none());
    assert!(CookieKey::new(Vec::new()).is_none());
    let key = CookieKey::new(vec![1u8; 64]).unwrap();
    assert_eq!(key.material(), &vec![1u8; 64]);
    assert!(CookieKey::new(vec![2u8; 100]).is_some());
}

#[test]
fn session_round_trips_under_the_same_key() {
    let key = key_from(1);
    let session =
        Session { access: Some("access token".to_string()), refresh: Some("r3fresh".to_string()) };
    let cookies = session.write(&key);
    assert_ne!(cookies.access.as_deref(), Some("access token"));
    assert_ne!(cookies.refresh.as_deref(), Some("r3fresh"));
    let back = Session::read(&key, &cookies);
    assert_eq!(back.access.as_deref(), Some("access token"));
    assert_eq!(back.refresh.as_deref(), Some("r3fresh"));
    assert!(!back.is_logged_out());

    let only_refresh = Session { access: None, refresh: Some("r".to_string()) };
    let cookies = only_refresh.write(&key);
    assert!(cookies.access.is_none());
    let back = Session::read(&key, &cookies);
    assert!(back.access.is_none());
    assert_eq!(back.refresh.as_deref(), Some("r"));

    let nothing = Session { access: None, refresh: None };
    let cookies = nothing.write(&key);
    assert!(cookies.access.is_none() && cookies.refresh.is_none());
    assert!(Session::read(&key, &cookies).is_logged_out());
}

#[test]
fn session_under_another_key_is_logged_out() {
    let session = Session { access: Some("a".to_string()), refresh: Some("r".to_string()) };
    let cookies = session.write(&key_from(1));
    let back = Session::read(&key_from(2), &cookies);
    assert!(back.is_logged_out());
    assert!(back.access.is_none() && back.refresh.is_none());
}

#[test]
fn corrupted_session_is_logged_out() {
    let key = key_from(1);
    let session = Session { access: Some("a".to_string()), refresh: Some("r".to_string()) };
    let sealed = session.write(&key);
    let mut broken = sealed.access.clone().unwrap().into_bytes();
    let last = broken.len() - 3;
    broken[last] = if broken[last] == b'A' { b'B' } else { b'A' };
    let cookies = SessionCookies {
        access: Some(String::from_utf8(broken).unwrap()),
        refresh: Some("not even base64 !!".to_string()),
    };
    assert!(Session::read(&key, &cookies).is_logged_out());
    let swapped = SessionCookies { access: sealed.refresh.clone(), refresh: sealed.access.clone() };
    assert!(Session::read(&key, &swapped).is_logged_out());
    let empty = SessionCookies { access: Some(String::new()), refresh: None };
    assert!(Session::read(&key, &empty).is_logged_out());
}

#[test]
fn sealing_differs_each_time_and_opens_alike() {
    let key = key_from(3);
    let one = key.seal("access", "token");
    let two = key.seal("access", "token");
    assert_ne!(one, two);
    assert_eq!(key.open("access", &one).as_deref(), Some("token"));
    assert_eq!(key.open("access", &two).as_deref(), Some("token"));
    assert!(key.open("refresh", &one).is_none());
    assert!(key.open("access", "token").is_none());
}

#[test]
fn seal_is_the_private_jars() {
    let key = key_from(4);
    let theirs = Key::from(key.material());
    let mut jar = CookieJar::new();
    jar.private_mut(&theirs).add(Cookie::new("access", "from the jar"));
    let sealed = jar.get("access").unwrap().value().to_string();
    assert_eq!(key.open("access", &sealed).as_deref(), Some("from the jar"));

    let ours = key.seal("refresh", "from the library");
    let mut jar = CookieJar::new();
    jar.add_original(Cookie::new("refresh", ours));
    assert_eq!(jar.private(&theirs).get("refresh").unwrap().value(), "from the library");
}

#[test]
fn access_credential_is_used_directly() {
    let step = credential(Session { access: Some("a".into()), refresh: Some("r".into()) });
    assert!(matches!(step, Ok(TokenStep::Ready(client)) if client.0 == "a"));
    let step = credential(Session { access: Some("a".into()), refresh: None });
    assert!(matches!(step, Ok(TokenStep::Ready(client)) if client.0 == "a"));
}

#[test]
fn refresh_credential_alone_is_exchanged() {
    let step = credential(Session { access: None, refresh: Some("r".into()) });
    assert!(matches!(step, Ok(TokenStep::Refresh(token)) if token == "r"));
}

#[test]
fn no_credential_is_no_token() {
    assert!(matches!(credential(Session { access: None, refresh: None }), Err(Error::NoToken)));
}

#[test]
fn request_reads_its_cookies() {
    let key = key_from(5);
    let cookies =
        Session { access: Some("a".into()), refresh: Some("r".into()) }.write(&key);
    assert!(matches!(
        from_request_parts(&key, &cookies),
        Ok(TokenStep::Ready(client)) if client.0 == "a"
    ));
    let only_refresh = SessionCookies { access: None, refresh: cookies.refresh.clone() };
    assert!(matches!(
        from_request_parts(&key, &only_refresh),
        Ok(TokenStep::Refresh(token)) if token == "r"
    ));
    let stale_access =
        SessionCookies { access: Some("garbage".into()), refresh: cookies.refresh.clone() };
    assert!(matches!(
        from_request_parts(&key, &stale_access),
        Ok(TokenStep::Refresh(token)) if token == "r"
    ));
    assert!(matches!(from_request_parts(&key_from(6), &cookies), Err(Error::NoToken)));
    let none = SessionCookies { access: None, refresh: None };
    assert!(matches!(from_request_parts(&key, &none), Err(Error::NoToken)));
}

fn grant(expires_in: Option<u64>, refresh: Option<&str>) -> TokenGrant {
    TokenGrant {
        access_token: "new access".to_string(),
        expires_in,
        refresh_token: refresh.map(|r| r.to_string()),
    }
}

#[test]
fn refresh_gives_client_and_cookies() {
    let key = key_from(7);
    let next = refreshed(&key, Ok(grant(Some(1800), None))).ok().expect("a grant");
    assert_eq!(next.client.0, "new access");
    assert_eq!(next.cookies.access.name, "access");
    assert_eq!(next.cookies.access.path, "/");
    assert_eq!(next.cookies.access.max_age, Some(1800));
    assert_eq!(key.open("access", &next.cookies.access.value).as_deref(), Some("new access"));
    assert!(next.cookies.refresh.is_none());
}

#[test]
fn refused_refresh_is_an_oauth_failure() {
    let key = key_from(7);
    assert!(matches!(
        refreshed(&key, Err("invalid_grant".to_string())),
        Err(Error::OAuth(text)) if text == "invalid_grant"
    ));
    assert!(matches!(
        refreshed(&key, Ok(grant(Some(u64::MAX), None))),
        Err(Error::DurationOutOfRange)
    ));
}

#[test]
fn lifetime_defaults_to_an_hour() {
    assert!(matches!(access_lifetime(None), Ok(3600)));
    assert!(matches!(access_lifetime(Some(0)), Ok(0)));
    assert!(matches!(access_lifetime(Some(7200)), Ok(7200)));
    assert!(matches!(access_lifetime(Some(i64::MAX as u64)), Ok(i64::MAX)));
    assert!(matches!(
        access_lifetime(Some(i64::MAX as u64 + 1)),
        Err(Error::DurationOutOfRange)
    ));
    assert!(matches!(access_lifetime(Some(u64::MAX)), Err(Error::DurationOutOfRange)));
}

#[test]
fn grant_becomes_session_cookies() {
    let key = key_from(8);
    let login = set_tokens(&key, Some(grant(None, Some("keep")))).ok().expect("a login");
    assert_eq!(login.redirect_to, "/classes");
    assert_eq!(login.cookies.access.name, "access");
    assert_eq!(login.cookies.access.path, "/");
    assert_eq!(login.cookies.access.max_age, Some(3600));
    assert_ne!(login.cookies.access.value, "new access");
    let refresh = login.cookies.refresh.as_ref().expect("a refresh cookie");
    assert_eq!(refresh.name, "refresh");
    assert_eq!(refresh.path, "/");
    assert_eq!(refresh.max_age, None);
    let cookies = SessionCookies {
        access: Some(login.cookies.access.value.clone()),
        refresh: Some(refresh.value.clone()),
    };
    let session = Session::read(&key, &cookies);
    assert_eq!(session.access.as_deref(), Some("new access"));
    assert_eq!(session.refresh.as_deref(), Some("keep"));

    let cookies = issue_cookies(&key, &grant(Some(60), None)).ok().expect("cookies");
    assert_eq!(cookies.access.max_age, Some(60));
    assert!(cookies.refresh.is_none());
}

#[test]
fn refused_code_is_not_retried() {
    let key = key_from(8);
    assert!(matches!(set_tokens(&key, None), Err(Error::CodeExchangeFailed)));
    assert!(matches!(
        set_tokens(&key, Some(grant(Some(u64::MAX), Some("r")))),
        Err(Error::DurationOutOfRange)
    ));
}

#[test]
fn callback_redeems_the_correlation_key() {
    let mut store = Tokens::new();
    store.begin("state-1".to_string(), "verifier-1".to_string(), 100);
    let query = SetIdQuery { code: "code-1".to_string(), state: "state-1".to_string() };
    let exchange = begin_exchange(&mut store, query, 200).ok().expect("pending");
    assert_eq!(exchange.code, "code-1");
    assert_eq!(exchange.verifier, "verifier-1");
    let replay = SetIdQuery { code: "code-1".to_string(), state: "state-1".to_string() };
    assert!(matches!(begin_exchange(&mut store, replay, 201), Err(Error::InvalidState)));
    store.begin("state-2".to_string(), "verifier-2".to_string(), 100);
    let late = SetIdQuery { code: "code-2".to_string(), state: "state-2".to_string() };
    assert!(matches!(begin_exchange(&mut store, late, 700), Err(Error::InvalidState)));
    assert_eq!(store.len(), 0);
}

#[test]
fn scopes_are_spelled_out_in_order() {
    let list = scopes();
    let names = [
        "userinfo.email",
        "userinfo.profile",
        "classroom.announcements",
        "classroom.coursework.me",
        "classroom.courseworkmaterials",
        "classroom.topics",
        "classroom.guardianlinks.me.readonly",
        "classroom.courses",
        "classroom.addons.student",
        "classroom.profile.emails",
        "classroom.profile.photos",
    ];
    assert_eq!(list.len(), 11);
    for (scope, name) in list.iter().zip(names.iter()) {
        assert_eq!(scope, &format!("https://www.googleapis.com/auth/{name}"));
    }
}

fn config(key: &str, root_url: &str) -> Config {
    Config {
        key: key.to_string(),
        root_url: root_url.to_string(),
        client_id: "client-id".to_string(),
        client_secret: "client-secret".to_string(),
    }
}

#[test]
fn hex_key_is_decoded() {
    let key = cookie_key(&hex_key()).ok().expect("a key");
    let expected: Vec<u8> = (0..64u8).collect();
    assert_eq!(key.material(), &expected);
    let long = format!("{}ff00", hex_key());
    let key = cookie_key(&long).ok().expect("a key");
    assert_eq!(key.material().len(), 66);
    assert_eq!(&key.material()[64..], &[0xff, 0x00]);
}

#[test]
fn bad_key_is_named() {
    assert!(matches!(cookie_key("abc"), Err(ConfigError::InvalidHex)));
    assert!(matches!(cookie_key("zz"), Err(ConfigError::InvalidHex)));
    assert!(matches!(cookie_key(&format!("{}g0", hex_key())), Err(ConfigError::InvalidHex)));
    assert!(matches!(cookie_key(&format!(" {}", hex_key())), Err(ConfigError::InvalidHex)));
    assert!(matches!(cookie_key("\u{e9}1"), Err(ConfigError::InvalidHex)));
    assert!(matches!(cookie_key(""), Err(ConfigError::KeyTooShort)));
    assert!(matches!(cookie_key("00ff"), Err(ConfigError::KeyTooShort)));
    assert!(matches!(cookie_key(&hex_key()[2..]), Err(ConfigError::KeyTooShort)));
}

#[test]
fn callback_url_drops_trailing_slashes() {
    assert_eq!(callback_url("https://example.com"), "https://example.com/oauth/callback");
    assert_eq!(callback_url("https://example.com/"), "https://example.com/oauth/callback");
    assert_eq!(callback_url("https://example.com///"), "https://example.com/oauth/callback");
    assert_eq!(callback_url("https://example.com/app/"), "https://example.com/app/oauth/callback");
    assert_eq!(callback_url("https://ex\u{e4}mple.com/"), "https://ex\u{e4}mple.com/oauth/callback");
    assert_eq!(callback_url(""), "/oauth/callback");
    assert_eq!(callback_url("//"), "/oauth/callback");
}

#[test]
fn state_is_built_from_a_good_configuration() {
    let checked = AppState::try_new(config(&hex_key(), "https://example.com/"));
    assert!(checked.is_ok());
    let state = AppState::new(config(&hex_key(), "https://example.com/"));
    assert_eq!(state.tokens.len(), 0);
    let expected: Vec<u8> = (0..64u8).collect();
    assert_eq!(state.key.material(), &expected);
    assert_eq!(state.oauth.client_id(), "client-id");
    assert_eq!(state.oauth.client_secret(), "client-secret");
    assert_eq!(state.oauth.redirect_uri(), "https://example.com/oauth/callback");
    assert_eq!(state.oauth.auth_url(), "https://accounts.google.com/o/oauth2/v2/auth");
    assert_eq!(state.oauth.token_url(), "https://oauth2.googleapis.com/token");
    assert_eq!(state.oauth.revocation_url(), "https://oauth2.googleapis.com/revoke");
}

#[test]
fn bad_configuration_is_refused() {
    assert!(matches!(
        AppState::try_new(config("xyz", "https://example.com")),
        Err(ConfigError::InvalidHex)
    ));
    assert!(matches!(
        AppState::try_new(config("00", "https://example.com")),
        Err(ConfigError::KeyTooShort)
    ));
    assert!(matches!(
        AppState::try_new(config(&hex_key(), "not a url")),
        Err(ConfigError::InvalidRedirectUrl)
    ));
    assert!(matches!(
        AppState::try_new(config(&hex_key(), "")),
        Err(ConfigError::InvalidRedirectUrl)
    ));
    assert!(matches!(
        AppState::try_new(config("xyz", "not a url")),
        Err(ConfigError::InvalidHex)
    ));
}

fn query_value(url: &str, name: &str) -> Option<String> {
    let parsed = oauth2::url::Url::parse(url).ok()?;
    let found = parsed.query_pairs().find(|(key, _)| key == name)?;
    Some(found.1.into_owned())
}

#[test]
fn sign_in_keeps_the_verifier_pending() {
    let state = AppState::new(config(&hex_key(), "https://example.com/"));
    let mut tokens = state.tokens;
    let login = redirect(&state.oauth, &mut tokens, 50);
    assert!(login.url.starts_with("https://accounts.google.com/o/oauth2/v2/auth?"));
    assert_eq!(query_value(&login.url, "state"), Some(login.correlation_key.clone()));
    assert_eq!(query_value(&login.url, "client_id").as_deref(), Some("client-id"));
    assert_eq!(query_value(&login.url, "response_type").as_deref(), Some("code"));
    assert_eq!(
        query_value(&login.url, "redirect_uri").as_deref(),
        Some("https://example.com/oauth/callback")
    );
    assert_eq!(query_value(&login.url, "code_challenge_method").as_deref(), Some("S256"));
    assert_eq!(
        query_value(&login.url, "scope"),
        Some(scopes().join(" "))
    );
    assert_eq!(tokens.len(), 1);
    let verifier = tokens.consume(&login.correlation_key, 649).ok().expect("pending");
    let challenge = oauth2::PkceCodeChallenge::from_code_verifier_sha256(
        &oauth2::PkceCodeVerifier::new(verifier),
    );
    assert_eq!(query_value(&login.url, "code_challenge").as_deref(), Some(challenge.as_str()));
}

#[test]
fn every_sign_in_has_its_own_secrets() {
    let state = AppState::new(config(&hex_key(), "https://example.com/"));
    let one = authorization_request(&state.oauth);
    let two = authorization_request(&state.oauth);
    assert_ne!(one.state, two.state);
    assert_ne!(one.verifier, two.verifier);
    assert_ne!(one.url, two.url);
    let mut tokens = Tokens::new();
    let first_key = one.state.clone();
    let first_url = one.url.clone();
    let login = register(&mut tokens, one, 0);
    assert_eq!(login.url, first_url);
    assert_eq!(login.correlation_key, first_key);
    let _ = register(&mut tokens, two, 0);
    assert_eq!(tokens.len(), 2);
}

#[test]
fn registered_request_expires_with_the_ttl() {
    let mut tokens = Tokens::new();
    let request = AuthorizationRequest {
        url: "https://auth.example/?x".to_string(),
        state: "k".to_string(),
        verifier: "v".to_string(),
    };
    let login = register(&mut tokens, request, 1_000);
    assert_eq!(login.url, "https://auth.example/?x");
    assert_eq!(login.correlation_key, "k");
    assert!(matches!(tokens.consume(&"k".to_string(), 1_600), Err(Error::InvalidState)));
}
