//! What the dashboard is configured with, checked once at start-up.

use vstd::prelude::*;
use vstd::string::*;
use crate::auth::{CookieKey, KEY_LENGTH};
use crate::tokens::{Pending, Tokens};

verus! {

/// Where visitors are sent to authorize the dashboard.
pub const AUTH_URL: &'static str = "https://accounts.google.com/o/oauth2/v2/auth";

/// Where authorization codes and refresh credentials are exchanged.
pub const TOKEN_URL: &'static str = "https://oauth2.googleapis.com/token";

/// Where credentials are revoked.
pub const REVOCATION_URL: &'static str = "https://oauth2.googleapis.com/revoke";

/// The path, below the dashboard's root, that the authorization comes back to.
pub const CALLBACK_PATH: &'static str = "/oauth/callback";

/// The dashboard's configuration, as read from its configuration file.
pub struct Config {
    /// The cookie key's material, in hexadecimal digits.
    pub key: String,
    /// The address the dashboard is reached at.
    pub root_url: String,
    pub client_id: String,
    pub client_secret: String,
}

/// Why a configuration cannot be used.
#[derive(Debug, Clone, Copy, PartialEq, Eq, Structural)]
pub enum ConfigError {
    /// The key is not an even number of hexadecimal digits.
    InvalidHex,
    /// The key holds fewer than 64 bytes.
    KeyTooShort,
    /// The root address does not give a callback URL.
    InvalidRedirectUrl,
    /// One of the authorization server's addresses is not a URL.
    InvalidEndpoint,
}

/// The value of a hexadecimal digit, of either case.
pub open spec fn hex_digit(c: char) -> Option<int> {
    if '0' <= c <= '9' {
        Some(c as int - '0' as int)
    } else if 'a' <= c <= 'f' {
        Some(c as int - 'a' as int + 10)
    } else if 'A' <= c <= 'F' {
        Some(c as int - 'A' as int + 10)
    } else {
        None
    }
}

/// Whether `text` is an even number of hexadecimal digits.
pub open spec fn is_hex(text: Seq<char>) -> bool {
    text.len() % 2 == 0 && forall|i: int| 0 <= i < text.len() ==> hex_digit(#[trigger] text[i]) is Some
}

/// The bytes that the digits of `text` spell, two digits to a byte, the high
/// digit first.
pub open spec fn hex_bytes(text: Seq<char>) -> Seq<u8> {
    Seq::new(
        text.len() / 2,
        |i: int| (16 * hex_digit(text[2 * i])->0 + hex_digit(text[2 * i + 1])->0) as u8,
    )
}

/// Whether `text` parses as a URL: what `url::Url::parse` decides.
pub uninterp spec fn parses_as_url(text: Seq<char>) -> bool;

/// `text` without the run of `c` at its end.
pub open spec fn without_trailing(text: Seq<char>, c: char) -> Seq<char>
    decreases text.len(),
{
    if text.len() > 0 && text.last() == c {
        without_trailing(text.drop_last(), c)
    } else {
        text
    }
}

/// The callback URL of a dashboard reached at `root_url`.
pub open spec fn callback_of(root_url: Seq<char>) -> Seq<char> {
    without_trailing(root_url, '/') + CALLBACK_PATH@
}

/// The error of `hex::decode`, carried from the call to the place that names
/// the configuration's fault.
#[verifier::external_type_specification]
#[verifier::external_body]
pub struct ExFromHexError(hex::FromHexError);

/// Calls `hex::decode`. The contract restates its rule: an even number of
/// digits of either case gives their bytes, anything else an error.
#[verifier::external_body]
fn decode_hex(text: &str) -> (bytes: Result<Vec<u8>, hex::FromHexError>)
    ensures
        bytes is Ok <==> is_hex(text@),
        bytes is Ok ==> bytes->Ok_0@ == hex_bytes(text@),
{
    hex::decode(text)
}

/// Calls `url::Url::parse`, as re-exported by the oauth2 crate, and reports
/// whether it accepted the text.
#[verifier::external_body]
fn is_url(text: &str) -> (ok: bool)
    ensures
        ok == parses_as_url(text@),
{
    oauth2::url::Url::parse(text).is_ok()
}

/// The callback URL of a dashboard reached at `root_url`: the root without
/// the slashes at its end, then [`CALLBACK_PATH`].
pub fn callback_url(root_url: &str) -> (url: String)
    ensures
        url@ == callback_of(root_url@),
{
    let mut end = root_url.unicode_len();
    assert(root_url@.subrange(0, end as int) == root_url@);
    while end > 0 && root_url.get_char(end - 1) == '/'
        invariant
            end <= root_url@.len(),
            without_trailing(root_url@, '/') == without_trailing(
                root_url@.subrange(0, end as int),
                '/',
            ),
        decreases end,
    {
        assert(root_url@.subrange(0, end as int).drop_last() == root_url@.subrange(
            0,
            end - 1,
        ));
        end -= 1;
    }
    let trimmed = root_url.substring_char(0, end);
    String::from_str(trimmed).concat(CALLBACK_PATH)
}

/// The settings of the authorization-code flow. Each address in them parses
/// as a URL.
pub struct OAuthSettings {
    client_id: String,
    client_secret: String,
    auth_url: String,
    token_url: String,
    revocation_url: String,
    redirect_uri: String,
}

impl OAuthSettings {
    #[verifier::type_invariant]
    spec fn well_formed(&self) -> bool {
        &&& parses_as_url(self.auth_url@)
        &&& parses_as_url(self.token_url@)
        &&& parses_as_url(self.revocation_url@)
        &&& parses_as_url(self.redirect_uri@)
    }

    pub closed spec fn spec_client_id(&self) -> Seq<char> {
        self.client_id@
    }

    pub closed spec fn spec_client_secret(&self) -> Seq<char> {
        self.client_secret@
    }

    pub closed spec fn spec_auth_url(&self) -> Seq<char> {
        self.auth_url@
    }

    pub closed spec fn spec_token_url(&self) -> Seq<char> {
        self.token_url@
    }

    pub closed spec fn spec_revocation_url(&self) -> Seq<char> {
        self.revocation_url@
    }

    pub closed spec fn spec_redirect_uri(&self) -> Seq<char> {
        self.redirect_uri@
    }

    /// The settings for a client of the given identity whose authorization
    /// comes back to `redirect_uri`.
    pub fn new(client_id: String, client_secret: String, redirect_uri: String) -> (settings:
        Result<OAuthSettings, ConfigError>)
        ensures
            !parses_as_url(redirect_uri@) ==> settings == Err::<OAuthSettings, ConfigError>(
                ConfigError::InvalidRedirectUrl,
            ),
            parses_as_url(redirect_uri@) && !(parses_as_url(AUTH_URL@) && parses_as_url(
                TOKEN_URL@,
            ) && parses_as_url(REVOCATION_URL@)) ==> settings == Err::<
                OAuthSettings,
                ConfigError,
            >(ConfigError::InvalidEndpoint),
            parses_as_url(redirect_uri@) && parses_as_url(AUTH_URL@) && parses_as_url(TOKEN_URL@)
                && parses_as_url(REVOCATION_URL@) ==> settings is Ok && {
                let s = settings->Ok_0;
                &&& s.spec_client_id() == client_id@
                &&& s.spec_client_secret() == client_secret@
                &&& s.spec_redirect_uri() == redirect_uri@
                &&& s.spec_auth_url() == AUTH_URL@
                &&& s.spec_token_url() == TOKEN_URL@
                &&& s.spec_revocation_url() == REVOCATION_URL@
            },
    {
        if !is_url(redirect_uri.as_str()) {
            return Err(ConfigError::InvalidRedirectUrl);
        }
        if !is_url(AUTH_URL) || !is_url(TOKEN_URL) || !is_url(REVOCATION_URL) {
            return Err(ConfigError::InvalidEndpoint);
        }
        Ok(
            OAuthSettings {
                client_id,
                client_secret,
                auth_url: String::from_str(AUTH_URL),
                token_url: String::from_str(TOKEN_URL),
                revocation_url: String::from_str(REVOCATION_URL),
                redirect_uri,
            },
        )
    }

    pub fn client_id(&self) -> (text: &String)
        ensures
            text@ == self.spec_client_id(),
    {
        &self.client_id
    }

    pub fn client_secret(&self) -> (text: &String)
        ensures
            text@ == self.spec_client_secret(),
    {
        &self.client_secret
    }

    pub fn auth_url(&self) -> (text: &String)
        ensures
            text@ == self.spec_auth_url(),
            parses_as_url(text@),
    {
        proof {
            use_type_invariant(self);
        }
        &self.auth_url
    }

    pub fn token_url(&self) -> (text: &String)
        ensures
            text@ == self.spec_token_url(),
            parses_as_url(text@),
    {
        proof {
            use_type_invariant(self);
        }
        &self.token_url
    }

    pub fn revocation_url(&self) -> (text: &String)
        ensures
            text@ == self.spec_revocation_url(),
            parses_as_url(text@),
    {
        proof {
            use_type_invariant(self);
        }
        &self.revocation_url
    }

    pub fn redirect_uri(&self) -> (text: &String)
        ensures
            text@ == self.spec_redirect_uri(),
            parses_as_url(text@),
    {
        proof {
            use_type_invariant(self);
        }
        &self.redirect_uri
    }
}

/// The key that the configuration spells, or why it spells none.
pub open spec fn key_of(text: Seq<char>) -> Result<Seq<u8>, ConfigError> {
    if !is_hex(text) {
        Err(ConfigError::InvalidHex)
    } else if hex_bytes(text).len() < KEY_LENGTH {
        Err(ConfigError::KeyTooShort)
    } else {
        Ok(hex_bytes(text))
    }
}

/// Reads the cookie key out of its hexadecimal spelling.
pub fn cookie_key(text: &str) -> (key: Result<CookieKey, ConfigError>)
    ensures
        match key {
            Ok(k) => key_of(text@) == Ok::<Seq<u8>, ConfigError>(k@),
            Err(e) => key_of(text@) == Err::<Seq<u8>, ConfigError>(e),
        },
{
    let bytes = match decode_hex(text) {
        Ok(bytes) => bytes,
        Err(_) => return Err(ConfigError::InvalidHex),
    };
    match CookieKey::new(bytes) {
        Some(key) => Ok(key),
        None => Err(ConfigError::KeyTooShort),
    }
}

/// What is wrong with a configuration, if anything: the key is looked at
/// first, then the callback URL, then the authorization server's addresses.
pub open spec fn config_fault(config: Config) -> Option<ConfigError> {
    if key_of(config.key@) is Err {
        Some(key_of(config.key@)->Err_0)
    } else if !parses_as_url(callback_of(config.root_url@)) {
        Some(ConfigError::InvalidRedirectUrl)
    } else if !(parses_as_url(AUTH_URL@) && parses_as_url(TOKEN_URL@) && parses_as_url(
        REVOCATION_URL@,
    )) {
        Some(ConfigError::InvalidEndpoint)
    } else {
        None
    }
}

/// What every request handler shares.
pub struct AppState {
    pub tokens: Tokens,
    pub oauth: OAuthSettings,
    pub key: CookieKey,
}

impl AppState {
    /// Whether the state is the one that `config` sets up: no pending
    /// authorization, the cookie key that the configuration spells, and the
    /// client's settings with the callback URL below the root address.
    pub open spec fn is_made_from(self, config: Config) -> bool {
        &&& self.tokens@ == Map::<Seq<char>, Pending>::empty()
        &&& key_of(config.key@) == Ok::<Seq<u8>, ConfigError>(self.key@)
        &&& self.oauth.spec_client_id() == config.client_id@
        &&& self.oauth.spec_client_secret() == config.client_secret@
        &&& self.oauth.spec_redirect_uri() == callback_of(config.root_url@)
        &&& self.oauth.spec_auth_url() == AUTH_URL@
        &&& self.oauth.spec_token_url() == TOKEN_URL@
        &&& self.oauth.spec_revocation_url() == REVOCATION_URL@
    }

    /// Sets up the shared state from a configuration that has no fault.
    ///
    /// A configuration with a fault has no state; [`AppState::try_new`]
    /// finds out whether one has, and names the fault.
    pub fn new(config: Config) -> (state: AppState)
        requires
            config_fault(config) is None,
        ensures
            state.is_made_from(config),
    {
        let key = cookie_key(config.key.as_str()).unwrap();
        let redirect_uri = callback_url(config.root_url.as_str());
        let oauth = OAuthSettings::new(
            config.client_id,
            config.client_secret,
            redirect_uri,
        ).unwrap();
        AppState { tokens: Tokens::new(), oauth, key }
    }

    /// Checks the configuration, and sets up the shared state if it has no
    /// fault. The key is checked first, then the callback URL, then the
    /// authorization server's addresses.
    pub fn try_new(config: Config) -> (state: Result<AppState, ConfigError>)
        ensures
            match state {
                Ok(s) => config_fault(config) is None && s.is_made_from(config),
                Err(e) => config_fault(config) == Some(e),
            },
    {
        match cookie_key(config.key.as_str()) {
            Ok(_) => {},
            Err(e) => return Err(e),
        }
        let redirect_uri = callback_url(config.root_url.as_str());
        if !is_url(redirect_uri.as_str()) {
            return Err(ConfigError::InvalidRedirectUrl);
        }
        if !is_url(AUTH_URL) || !is_url(TOKEN_URL) || !is_url(REVOCATION_URL) {
            return Err(ConfigError::InvalidEndpoint);
        }
        Ok(AppState::new(config))
    }
}

} // verus!
