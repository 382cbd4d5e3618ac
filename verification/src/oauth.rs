//! Signing in: sending the visitor to the authorization server, and taking
//! the answer that comes back.

use vstd::prelude::*;
use vstd::string::*;
use oauth2::basic::BasicClient;
use oauth2::{
    AuthUrl, ClientId, CsrfToken, PkceCodeChallenge, PkceCodeVerifier, RedirectUrl, Scope,
};
use crate::auth::{opened, CookieKey, ACCESS_COOKIE, COOKIE_PATH, DEFAULT_LIFETIME, REFRESH_COOKIE};
use crate::error::Error;
use crate::state::{parses_as_url, OAuthSettings};
use crate::tokens::{after_begin, after_consume, deadline, redeemed, Tokens};

verus! {

/// What every scope that the dashboard asks for begins with.
pub const SCOPE_PREFIX: &'static str = "https://www.googleapis.com/auth/";

/// Where a visitor lands after signing in.
pub const AFTER_LOGIN: &'static str = "/classes";

/// The names of the scopes that the dashboard asks for, in the order asked.
pub open spec fn scope_names() -> Seq<Seq<char>> {
    seq![
        "userinfo.email"@,
        "userinfo.profile"@,
        "classroom.announcements"@,
        "classroom.coursework.me"@,
        "classroom.courseworkmaterials"@,
        "classroom.topics"@,
        "classroom.guardianlinks.me.readonly"@,
        "classroom.courses"@,
        "classroom.addons.student"@,
        "classroom.profile.emails"@,
        "classroom.profile.photos"@,
    ]
}

/// The scopes that the dashboard asks for, spelled out.
pub open spec fn login_scopes() -> Seq<Seq<char>> {
    scope_names().map_values(|name: Seq<char>| SCOPE_PREFIX@ + name)
}

/// The texts of a list of strings.
pub open spec fn texts(list: Seq<String>) -> Seq<Seq<char>> {
    list.map_values(|s: String| s@)
}

fn scope(name: &str) -> (spelled: String)
    ensures
        spelled@ == SCOPE_PREFIX@ + name@,
{
    String::from_str(SCOPE_PREFIX).concat(name)
}

/// The scopes that the dashboard asks for.
pub fn scopes() -> (list: Vec<String>)
    ensures
        texts(list@) == login_scopes(),
{
    let mut list: Vec<String> = Vec::new();
    list.push(scope("userinfo.email"));
    list.push(scope("userinfo.profile"));
    list.push(scope("classroom.announcements"));
    list.push(scope("classroom.coursework.me"));
    list.push(scope("classroom.courseworkmaterials"));
    list.push(scope("classroom.topics"));
    list.push(scope("classroom.guardianlinks.me.readonly"));
    list.push(scope("classroom.courses"));
    list.push(scope("classroom.addons.student"));
    list.push(scope("classroom.profile.emails"));
    list.push(scope("classroom.profile.photos"));
    assert(texts(list@) =~= login_scopes());
    list
}

/// What the authorization server is asked: the address to send the visitor
/// to, and the two secrets that were made for this sign-in.
pub struct AuthorizationRequest {
    pub url: String,
    /// The correlation key that comes back with the answer.
    pub state: String,
    /// The secret that proves, at the exchange, who asked.
    pub verifier: String,
}

/// Whether `text` can serve as a PKCE code verifier: 43 to 128 characters,
/// each of them ASCII.
pub open spec fn is_code_verifier(text: Seq<char>) -> bool {
    &&& 43 <= text.len() <= 128
    &&& forall|i: int| 0 <= i < text.len() ==> '\0' <= #[trigger] text[i] <= '\u{7f}'
}

/// The address that `oauth2::AuthorizationRequest::url` builds for a client
/// with the given identity and addresses, asking for `scopes`, with `state`
/// as the correlation key and the SHA-256 challenge of `verifier`.
pub uninterp spec fn authorization_url(
    client_id: Seq<char>,
    auth_url: Seq<char>,
    redirect_uri: Seq<char>,
    scopes: Seq<Seq<char>>,
    state: Seq<char>,
    verifier: Seq<char>,
) -> Seq<char>;

/// Takes the code verifier that `oauth2::PkceCodeChallenge::new_random_sha256`
/// makes. It is random; the contract says what holds of every one: it is the
/// unpadded base64 spelling of 32 bytes.
#[verifier::external_body]
fn fresh_verifier() -> (verifier: String)
    ensures
        verifier@.len() == 43,
        is_code_verifier(verifier@),
{
    PkceCodeChallenge::new_random_sha256().1.secret().clone()
}

/// Takes the correlation key that `oauth2::CsrfToken::new_random` makes. It
/// is random, so nothing is promised of it.
#[verifier::external_body]
fn fresh_state() -> (state: String) {
    CsrfToken::new_random().secret().clone()
}

/// Has `oauth2::Client::authorize_url` build the address for the given
/// correlation key, with the challenge that
/// `oauth2::PkceCodeChallenge::from_code_verifier_sha256` derives from the
/// verifier.
#[verifier::external_body]
fn build_authorization_url(
    client_id: &str,
    auth_url: &str,
    redirect_uri: &str,
    scopes: &Vec<String>,
    state: &str,
    verifier: &str,
) -> (url: String)
    requires
        parses_as_url(auth_url@),
        parses_as_url(redirect_uri@),
        is_code_verifier(verifier@),
    ensures
        url@ == authorization_url(
            client_id@,
            auth_url@,
            redirect_uri@,
            texts(scopes@),
            state@,
            verifier@,
        ),
{
    let id = ClientId::new(client_id.to_string());
    let auth = AuthUrl::new(auth_url.to_string()).unwrap();
    let back = RedirectUrl::new(redirect_uri.to_string()).unwrap();
    let client = BasicClient::new(id, None, auth, None).set_redirect_uri(back);
    let secret = PkceCodeVerifier::new(verifier.to_string());
    let challenge = PkceCodeChallenge::from_code_verifier_sha256(&secret);
    let asked = scopes.iter().map(|scope| Scope::new(scope.clone()));
    let request = client.authorize_url(|| CsrfToken::new(state.to_string()));
    request.set_pkce_challenge(challenge).add_scopes(asked).url().0.to_string()
}

/// Where to send a visitor who signs in, and the key of the authorization
/// that is pending from now on.
pub struct LoginRedirect {
    pub url: String,
    pub correlation_key: String,
}

/// The address that asks for an authorization with the dashboard's scopes,
/// under the correlation key `state` and the challenge of `verifier`.
pub open spec fn login_url(settings: OAuthSettings, state: Seq<char>, verifier: Seq<char>) -> Seq<
    char,
> {
    authorization_url(
        settings.spec_client_id(),
        settings.spec_auth_url(),
        settings.spec_redirect_uri(),
        login_scopes(),
        state,
        verifier,
    )
}

/// Asks for a fresh authorization with the dashboard's scopes: makes a new
/// correlation key and a new verifier, and the address that carries the key
/// and the verifier's challenge.
pub fn authorization_request(settings: &OAuthSettings) -> (request: AuthorizationRequest)
    ensures
        is_code_verifier(request.verifier@),
        request.url@ == login_url(*settings, request.state@, request.verifier@),
{
    let asked = scopes();
    let state = fresh_state();
    let verifier = fresh_verifier();
    let url = build_authorization_url(
        settings.client_id().as_str(),
        settings.auth_url().as_str(),
        settings.redirect_uri().as_str(),
        &asked,
        state.as_str(),
        verifier.as_str(),
    );
    AuthorizationRequest { url, state, verifier }
}

/// Records an authorization request as pending from `now` on, and says where
/// to send the visitor.
pub fn register(tokens: &mut Tokens, request: AuthorizationRequest, now: u64) -> (login:
    LoginRedirect)
    ensures
        login.url == request.url,
        login.correlation_key@ == request.state@,
        final(tokens)@ == after_begin(old(tokens)@, request.state@, request.verifier@, now),
{
    let correlation_key = request.state.clone();
    tokens.begin(request.state, request.verifier, now);
    LoginRedirect { url: request.url, correlation_key }
}

/// Starts a sign-in at `now`: makes the secrets, keeps the verifier pending
/// under the correlation key, and says where to send the visitor: to the
/// address that carries that key and the challenge of that verifier. The caller
/// sets a timer of [`crate::tokens::TTL_SECONDS`] for the key and calls
/// [`Tokens::evict`] when it fires.
pub fn redirect(settings: &OAuthSettings, tokens: &mut Tokens, now: u64) -> (login: LoginRedirect)
    ensures
        final(tokens)@.contains_key(login.correlation_key@),
        final(tokens)@[login.correlation_key@].expires_at == deadline(now),
        final(tokens)@.remove(login.correlation_key@) == old(tokens)@.remove(
            login.correlation_key@,
        ),
        is_code_verifier(final(tokens)@[login.correlation_key@].secret),
        login.url@ == login_url(
            *settings,
            login.correlation_key@,
            final(tokens)@[login.correlation_key@].secret,
        ),
{
    let request = authorization_request(settings);
    let ghost key = request.state@;
    let ghost before = tokens@;
    let login = register(tokens, request, now);
    assert(tokens@.remove(key) =~= before.remove(key));
    login
}

/// What the authorization server sends back to the callback address.
pub struct SetIdQuery {
    pub code: String,
    pub state: String,
}

/// What to hand the token endpoint to redeem an authorization code.
pub struct CodeExchange {
    pub code: String,
    pub verifier: String,
}

/// What the token endpoint granted.
pub struct TokenGrant {
    pub access_token: String,
    /// The lifetime of the access credential in seconds, if stated.
    pub expires_in: Option<u64>,
    pub refresh_token: Option<String>,
}

/// A cookie to set on the response.
pub struct SetCookie {
    pub name: &'static str,
    /// The sealed value.
    pub value: String,
    pub path: &'static str,
    /// Seconds from now at which the cookie expires, if it does.
    pub max_age: Option<i64>,
}

/// The cookies that carry a grant.
pub struct IssuedCookies {
    pub access: SetCookie,
    pub refresh: Option<SetCookie>,
}

/// What a finished sign-in answers with.
pub struct Login {
    pub cookies: IssuedCookies,
    pub redirect_to: &'static str,
}

/// Takes the callback of a sign-in at `now`: redeems the correlation key for
/// the verifier that belongs to the code.
///
/// A key that names no pending authorization, or one whose time is up, is
/// `InvalidState`. The key's entry is gone afterwards either way.
pub fn begin_exchange(tokens: &mut Tokens, query: SetIdQuery, now: u64) -> (exchange: Result<
    CodeExchange,
    Error,
>)
    ensures
        final(tokens)@ == after_consume(old(tokens)@, query.state@),
        match exchange {
            Ok(x) => x.code == query.code && redeemed(old(tokens)@, query.state@, now) == Some(
                x.verifier@,
            ),
            Err(e) => e == Error::InvalidState && redeemed(old(tokens)@, query.state@, now)
                is None,
        },
{
    match tokens.consume(&query.state, now) {
        Ok(verifier) => Ok(CodeExchange { code: query.code, verifier }),
        Err(e) => Err(e),
    }
}

/// The lifetime of an access credential in seconds: the stated one, or
/// [`DEFAULT_LIFETIME`]; nothing where it does not fit a signed duration.
pub open spec fn lifetime_of(expires_in: Option<u64>) -> Option<i64> {
    match expires_in {
        None => Some(DEFAULT_LIFETIME as i64),
        Some(seconds) => if seconds <= i64::MAX {
            Some(seconds as i64)
        } else {
            None
        },
    }
}

/// The lifetime of an access credential in seconds.
pub fn access_lifetime(expires_in: Option<u64>) -> (lifetime: Result<i64, Error>)
    ensures
        match lifetime {
            Ok(seconds) => lifetime_of(expires_in) == Some(seconds),
            Err(e) => e == Error::DurationOutOfRange && lifetime_of(expires_in) is None,
        },
{
    let seconds = match expires_in {
        Some(seconds) => seconds,
        None => DEFAULT_LIFETIME,
    };
    if seconds <= 0x7fff_ffff_ffff_ffff {
        Ok(seconds as i64)
    } else {
        Err(Error::DurationOutOfRange)
    }
}

/// Whether `cookies` carry `grant` under `key`: the access cookie opens to
/// the access credential and lives as long as it; the refresh cookie is
/// there exactly when a refresh credential was granted, opens to it and does
/// not expire.
pub open spec fn carries(cookies: IssuedCookies, grant: TokenGrant, key: Seq<u8>) -> bool {
    &&& cookies.access.name@ == ACCESS_COOKIE@
    &&& cookies.access.path@ == COOKIE_PATH@
    &&& cookies.access.max_age == lifetime_of(grant.expires_in)
    &&& opened(key, ACCESS_COOKIE@, cookies.access.value@) == Some(grant.access_token@)
    &&& cookies.refresh is Some <==> grant.refresh_token is Some
    &&& cookies.refresh is Some ==> {
        let cookie = cookies.refresh->0;
        &&& cookie.name@ == REFRESH_COOKIE@
        &&& cookie.path@ == COOKIE_PATH@
        &&& cookie.max_age is None
        &&& opened(key, REFRESH_COOKIE@, cookie.value@) == Some(grant.refresh_token->0@)
    }
}

/// The cookies that carry a grant: the access credential with its lifetime,
/// and the refresh credential, if one was granted, without an expiry.
pub fn issue_cookies(key: &CookieKey, grant: &TokenGrant) -> (cookies: Result<
    IssuedCookies,
    Error,
>)
    ensures
        match cookies {
            Ok(c) => lifetime_of(grant.expires_in) is Some && carries(c, *grant, key@),
            Err(e) => e == Error::DurationOutOfRange && lifetime_of(grant.expires_in) is None,
        },
{
    let lifetime = match access_lifetime(grant.expires_in) {
        Ok(seconds) => seconds,
        Err(e) => return Err(e),
    };
    let access = SetCookie {
        name: ACCESS_COOKIE,
        value: key.seal(ACCESS_COOKIE, grant.access_token.as_str()),
        path: COOKIE_PATH,
        max_age: Some(lifetime),
    };
    let refresh = match &grant.refresh_token {
        Some(token) => Some(
            SetCookie {
                name: REFRESH_COOKIE,
                value: key.seal(REFRESH_COOKIE, token.as_str()),
                path: COOKIE_PATH,
                max_age: None,
            },
        ),
        None => None,
    };
    Ok(IssuedCookies { access, refresh })
}

/// Finishes a sign-in with what the token endpoint answered; `None` stands
/// for its refusal.
///
/// A refusal is `CodeExchangeFailed`: the code is spent, so nothing is tried
/// again. A granted lifetime that does not fit is `DurationOutOfRange`.
/// Otherwise the visitor gets the session cookies and is sent on to
/// [`AFTER_LOGIN`].
pub fn set_tokens(key: &CookieKey, outcome: Option<TokenGrant>) -> (login: Result<Login, Error>)
    ensures
        match login {
            Ok(l) => outcome is Some && lifetime_of(outcome->0.expires_in) is Some
                && l.redirect_to@ == AFTER_LOGIN@ && carries(l.cookies, outcome->0, key@),
            Err(e) => match outcome {
                None => e == Error::CodeExchangeFailed,
                Some(grant) => e == Error::DurationOutOfRange && lifetime_of(grant.expires_in)
                    is None,
            },
        },
{
    match outcome {
        None => Err(Error::CodeExchangeFailed),
        Some(grant) => match issue_cookies(key, &grant) {
            Ok(cookies) => Ok(Login { cookies, redirect_to: AFTER_LOGIN }),
            Err(e) => Err(e),
        },
    }
}

} // verus!
