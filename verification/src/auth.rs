//! The session a visitor carries in sealed cookies, and how a request gets a
//! usable access credential from it.

use vstd::prelude::*;
use tower_cookies::cookie::{Cookie, CookieJar, Key};
use crate::error::Error;
use crate::oauth::{carries, issue_cookies, lifetime_of, IssuedCookies, TokenGrant};

verus! {

/// The name of the cookie that holds the access credential.
pub const ACCESS_COOKIE: &'static str = "access";

/// The name of the cookie that holds the refresh credential.
pub const REFRESH_COOKIE: &'static str = "refresh";

/// The path both cookies are set for.
pub const COOKIE_PATH: &'static str = "/";

/// How long an access credential lives when the token endpoint does not say,
/// in seconds.
pub const DEFAULT_LIFETIME: u64 = 3600;

/// The fewest bytes of key material that seal a cookie.
pub const KEY_LENGTH: usize = 64;

/// What `cookie::PrivateJar::decrypt` yields for a cookie called `name` with
/// the value `sealed`, under the key made of `key`: the value that was sealed,
/// or nothing where the seal does not hold.
pub uninterp spec fn opened(key: Seq<u8>, name: Seq<char>, sealed: Seq<char>) -> Option<Seq<char>>;

/// The material of the key that seals the session cookies: at least
/// [`KEY_LENGTH`] bytes.
pub struct CookieKey {
    material: Vec<u8>,
}

impl View for CookieKey {
    type V = Seq<u8>;

    closed spec fn view(&self) -> Seq<u8> {
        self.material@
    }
}

/// Seals `plain` as the value of the cookie `name`: builds the cookie, adds it
/// to a `cookie::PrivateJar` under the key and reads the sealed value back.
/// The seal holds a fresh random nonce, so the contract says only what the
/// cookie crate promises of every outcome: the same key opens it again. The
/// cookie crate gives up where the system has no randomness left to give.
#[verifier::external_body]
fn seal_value(key: &Vec<u8>, name: &str, plain: &str) -> (sealed: String)
    requires
        key@.len() >= KEY_LENGTH,
    ensures
        opened(key@, name@, sealed@) == Some(plain@),
{
    let mut jar = CookieJar::new();
    jar.private_mut(&Key::from(key)).add(Cookie::new(name.to_string(), plain.to_string()));
    jar.get(name).map(|cookie| cookie.value().to_string()).unwrap_or_default()
}

/// Opens the value of the cookie `name` with `cookie::PrivateJar::decrypt`.
#[verifier::external_body]
fn open_value(key: &Vec<u8>, name: &str, sealed: &str) -> (plain: Option<String>)
    requires
        key@.len() >= KEY_LENGTH,
    ensures
        plain is Some <==> opened(key@, name@, sealed@) is Some,
        plain is Some ==> plain->0@ == opened(key@, name@, sealed@)->0,
{
    let jar = CookieJar::new();
    let cookie = Cookie::new(name.to_string(), sealed.to_string());
    jar.private(&Key::from(key)).decrypt(cookie).map(|cookie| cookie.value().to_string())
}

impl CookieKey {
    #[verifier::type_invariant]
    spec fn well_formed(&self) -> bool {
        self.material@.len() >= KEY_LENGTH
    }

    /// Takes `material` as the key, if it is long enough.
    pub fn new(material: Vec<u8>) -> (key: Option<CookieKey>)
        ensures
            key is Some <==> material@.len() >= KEY_LENGTH,
            key is Some ==> key->0@ == material@,
    {
        if material.len() >= KEY_LENGTH {
            Some(CookieKey { material })
        } else {
            None
        }
    }

    /// The key's material.
    pub fn material(&self) -> (material: &Vec<u8>)
        ensures
            material@ == self@,
            material@.len() >= KEY_LENGTH,
    {
        proof {
            use_type_invariant(self);
        }
        &self.material
    }

    /// Seals `plain` as the value of the cookie `name`. Every sealing gives
    /// another value; each opens to `plain` under this key and this name.
    pub fn seal(&self, name: &str, plain: &str) -> (sealed: String)
        ensures
            opened(self@, name@, sealed@) == Some(plain@),
    {
        proof {
            use_type_invariant(self);
        }
        seal_value(&self.material, name, plain)
    }

    /// Opens the value of the cookie `name`. A value that was not sealed
    /// under this key and this name, or was changed since, opens to nothing.
    pub fn open(&self, name: &str, sealed: &str) -> (plain: Option<String>)
        ensures
            plain is Some <==> opened(self@, name@, sealed@) is Some,
            plain is Some ==> plain->0@ == opened(self@, name@, sealed@)->0,
    {
        proof {
            use_type_invariant(self);
        }
        open_value(&self.material, name, sealed)
    }
}

/// The credentials a visitor holds. A session with neither is logged out.
pub struct Session {
    pub access: Option<String>,
    pub refresh: Option<String>,
}

/// What a [`Session`] holds, as mathematical values.
pub struct SessionView {
    pub access: Option<Seq<char>>,
    pub refresh: Option<Seq<char>>,
}

impl View for Session {
    type V = SessionView;

    open spec fn view(&self) -> SessionView {
        SessionView {
            access: match self.access {
                Some(text) => Some(text@),
                None => None,
            },
            refresh: match self.refresh {
                Some(text) => Some(text@),
                None => None,
            },
        }
    }
}

impl SessionView {
    pub open spec fn is_logged_out(self) -> bool {
        self.access is None && self.refresh is None
    }
}

/// The values of the two session cookies as the visitor sent them, sealed.
pub struct SessionCookies {
    pub access: Option<String>,
    pub refresh: Option<String>,
}

/// What one cookie yields: nothing if it was not sent or does not open.
pub open spec fn cookie_content(key: Seq<u8>, name: Seq<char>, sealed: Option<String>) -> Option<
    Seq<char>,
> {
    match sealed {
        Some(value) => opened(key, name, value@),
        None => None,
    }
}

/// The session that the cookies hold under `key`.
pub open spec fn session_in(key: Seq<u8>, cookies: SessionCookies) -> SessionView {
    SessionView {
        access: cookie_content(key, ACCESS_COOKIE@, cookies.access),
        refresh: cookie_content(key, REFRESH_COOKIE@, cookies.refresh),
    }
}

/// Cookies of which none opens under the key hold the logged-out session,
/// whatever they are: values sealed under another key, values that were
/// changed, or values that were never sealed.
pub proof fn lemma_unopened_cookies_are_logged_out(key: Seq<u8>, cookies: SessionCookies)
    requires
        cookies.access is Some ==> opened(key, ACCESS_COOKIE@, cookies.access->0@) is None,
        cookies.refresh is Some ==> opened(key, REFRESH_COOKIE@, cookies.refresh->0@) is None,
    ensures
        session_in(key, cookies).is_logged_out(),
{
}

fn read_cookie(key: &CookieKey, name: &str, sealed: &Option<String>) -> (plain: Option<String>)
    ensures
        plain is Some <==> cookie_content(key@, name@, *sealed) is Some,
        plain is Some ==> plain->0@ == cookie_content(key@, name@, *sealed)->0,
{
    match sealed {
        Some(value) => key.open(name, value.as_str()),
        None => None,
    }
}

fn write_cookie(key: &CookieKey, name: &str, plain: &Option<String>) -> (sealed: Option<String>)
    ensures
        sealed is Some <==> *plain is Some,
        plain is Some ==> cookie_content(key@, name@, sealed) == Some(plain->0@),
{
    match plain {
        Some(value) => Some(key.seal(name, value.as_str())),
        None => None,
    }
}

impl Session {
    /// Reads the session out of the cookies. A cookie that does not open
    /// under `key` counts as not sent: reading never fails, and cookies of
    /// which none opens give the logged-out session.
    pub fn read(key: &CookieKey, cookies: &SessionCookies) -> (session: Session)
        ensures
            session@ == session_in(key@, *cookies),
    {
        Session {
            access: read_cookie(key, ACCESS_COOKIE, &cookies.access),
            refresh: read_cookie(key, REFRESH_COOKIE, &cookies.refresh),
        }
    }

    /// Seals the session into cookie values. Reading them back under the
    /// same key gives the session again.
    pub fn write(&self, key: &CookieKey) -> (cookies: SessionCookies)
        ensures
            session_in(key@, cookies) == self@,
            cookies.access is Some <==> self.access is Some,
            cookies.refresh is Some <==> self.refresh is Some,
    {
        SessionCookies {
            access: write_cookie(key, ACCESS_COOKIE, &self.access),
            refresh: write_cookie(key, REFRESH_COOKIE, &self.refresh),
        }
    }

    /// Whether the session holds no credential.
    pub fn is_logged_out(&self) -> (out: bool)
        ensures
            out == self@.is_logged_out(),
    {
        self.access.is_none() && self.refresh.is_none()
    }
}

/// The handle a request works with once it is authorized: the access
/// credential that every query to the classroom service carries.
pub struct UserClient(pub String);

/// What a request does next to get its access credential.
pub enum TokenStep {
    /// The session holds an access credential: use it.
    Ready(UserClient),
    /// The session holds only a refresh credential: exchange it at the token
    /// endpoint, then call [`refreshed`].
    Refresh(String),
}

/// What a refresh gives: the handle to go on with, and the cookies that keep
/// the new credential for the requests to come.
pub struct Refreshed {
    pub client: UserClient,
    pub cookies: IssuedCookies,
}

/// Decides how a session gets its access credential.
///
/// An access credential is used as it is. Without one, a refresh credential
/// is exchanged. A session with neither is `NoToken`, which sends the visitor
/// to sign in.
pub fn credential(session: Session) -> (step: Result<TokenStep, Error>)
    ensures
        match step {
            Ok(TokenStep::Ready(client)) => session.access == Some(client.0),
            Ok(TokenStep::Refresh(token)) => session.access is None && session.refresh == Some(
                token,
            ),
            Err(e) => e == Error::NoToken && session.access is None && session.refresh is None,
        },
{
    match session.access {
        Some(token) => Ok(TokenStep::Ready(UserClient(token))),
        None => match session.refresh {
            Some(token) => Ok(TokenStep::Refresh(token)),
            None => Err(Error::NoToken),
        },
    }
}

/// Reads the session cookies of a request and decides how it gets its access
/// credential. Cookies that do not open under `key` count as not sent.
pub fn from_request_parts(key: &CookieKey, cookies: &SessionCookies) -> (step: Result<
    TokenStep,
    Error,
>)
    ensures
        match step {
            Ok(TokenStep::Ready(client)) => session_in(key@, *cookies).access == Some(client.0@),
            Ok(TokenStep::Refresh(token)) => session_in(key@, *cookies).access is None
                && session_in(key@, *cookies).refresh == Some(token@),
            Err(e) => e == Error::NoToken && session_in(key@, *cookies).is_logged_out(),
        },
{
    credential(Session::read(key, cookies))
}

/// Takes what the token endpoint answered to a refresh; an `Err` carries the
/// description of its refusal.
///
/// A refusal is `OAuth`: the visitor has to sign in anew. A grant gives the
/// handle with the new access credential, and the cookies that the response
/// must set, so that the next request need not refresh again.
pub fn refreshed(key: &CookieKey, outcome: Result<TokenGrant, String>) -> (next: Result<
    Refreshed,
    Error,
>)
    ensures
        match next {
            Ok(r) => outcome is Ok && r.client.0 == outcome->Ok_0.access_token && lifetime_of(
                outcome->Ok_0.expires_in,
            ) is Some && carries(r.cookies, outcome->Ok_0, key@),
            Err(e) => match outcome {
                Err(text) => e == Error::OAuth(text),
                Ok(grant) => e == Error::DurationOutOfRange && lifetime_of(grant.expires_in)
                    is None,
            },
        },
{
    match outcome {
        Err(text) => Err(Error::OAuth(text)),
        Ok(grant) => match issue_cookies(key, &grant) {
            Ok(cookies) => Ok(Refreshed { client: UserClient(grant.access_token), cookies }),
            Err(e) => Err(e),
        },
    }
}

} // verus!
