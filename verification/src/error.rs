//! The failures a request can end in.

use vstd::prelude::*;
use vstd::string::*;

verus! {

/// Everything that can stop a request. The variants that stand for a failure
/// of a collaborator carry that failure's description as text.
#[derive(Debug)]
pub enum Error {
    /// A template could not be rendered.
    Tera(String),
    /// The classroom service, or the transport to it, failed.
    GoogleClassroom(String),
    /// A JSON document could not be read or written.
    SerdeJson(String),
    /// One of the per-course tasks ended abnormally.
    Join(String),
    /// An integer did not fit its target type.
    IntegerConversion,
    /// The token endpoint refused a refresh.
    OAuth(String),
    /// A request part could not be extracted.
    Extractor(&'static str),
    /// The service's answer lacks the named field.
    MissingField(&'static str),
    /// A URL-encoded string was not UTF-8.
    FromUtf8,
    /// A token lifetime does not fit a signed duration.
    DurationOutOfRange,
    /// The sign-in callback named no pending authorization.
    InvalidState,
    /// The authorization code was refused.
    CodeExchangeFailed,
    /// The visitor holds no credential and must sign in.
    NoToken,
    /// A date or time was out of range.
    InvalidDateTime,
    /// The page renderer was used before it was set up.
    UninitializedOnceCell,
}

/// Where a visitor without a credential is sent.
pub const LOGIN_PATH: &'static str = "/oauth";

/// The template of the failure page.
pub const ERROR_TEMPLATE: &'static str = "error.jinja";

/// The status of the plain-text fallback.
pub const FALLBACK_STATUS: u16 = 500;

/// What the plain-text fallback begins with.
pub const FALLBACK_PREAMBLE: &'static str =
    "There was an error while processing your request.\nAdditionally, there was an error while trying to use an Error to nicely display the error:\n";

/// What a request that failed is answered with.
pub enum Reply {
    /// Send the visitor to this path.
    Redirect(&'static str),
    /// Show this rendered page.
    Page(String),
    /// Answer in plain text, with this status.
    Plain { status: u16, body: String },
}

/// What to do about a failure, before anything is rendered.
pub enum ResponsePlan {
    /// Send the visitor to this path; nothing is rendered.
    Redirect(&'static str),
    /// Render the failure page from [`ERROR_TEMPLATE`], then call
    /// [`into_response`].
    RenderPage,
}

/// How rendering the failure page went.
pub enum PageOutcome {
    /// The renderer was never set up.
    Unavailable,
    /// The page, rendered.
    Rendered(String),
    /// Rendering failed; the text says how.
    Failed(String),
}

impl Error {
    /// What the failure says of itself.
    pub open spec fn message_text(self) -> Seq<char> {
        match self {
            Error::Tera(detail) => "Tera error: "@ + detail@,
            Error::GoogleClassroom(detail) => "Classroom API error: "@ + detail@,
            Error::SerdeJson(detail) => "SerdeJson error: "@ + detail@,
            Error::Join(detail) => "Tokio task join error: "@ + detail@,
            Error::IntegerConversion => "Integer conversion error: TryFromIntError(())"@,
            Error::OAuth(_) => "OAuth error"@,
            Error::Extractor(what) => "Extractor error: "@ + what@,
            Error::MissingField(path) => "Missing expected field: "@ + path@,
            Error::FromUtf8 => "Error converting URL-encoded string"@,
            Error::DurationOutOfRange => "Tower-Cookies time error: Source value is out of range for the target type"@,
            Error::InvalidState => "Invalid OAuth State"@,
            Error::CodeExchangeFailed => "OAuth Code Exchange Failed"@,
            Error::NoToken => "No token found - reauthenticating"@,
            Error::InvalidDateTime => "Invalid datetime detected"@,
            Error::UninitializedOnceCell => "Once cell uninitialized, please make an issue"@,
        }
    }

    /// What the failure says of itself, as text.
    pub fn message(&self) -> (text: String)
        ensures
            text@ == self.message_text(),
    {
        match self {
            Error::Tera(detail) => String::from_str("Tera error: ").concat(detail.as_str()),
            Error::GoogleClassroom(detail) => String::from_str("Classroom API error: ").concat(
                detail.as_str(),
            ),
            Error::SerdeJson(detail) => String::from_str("SerdeJson error: ").concat(
                detail.as_str(),
            ),
            Error::Join(detail) => String::from_str("Tokio task join error: ").concat(
                detail.as_str(),
            ),
            Error::IntegerConversion => String::from_str("Integer conversion error: TryFromIntError(())"),
            Error::OAuth(_) => String::from_str("OAuth error"),
            Error::Extractor(what) => String::from_str("Extractor error: ").concat(what),
            Error::MissingField(path) => String::from_str("Missing expected field: ").concat(path),
            Error::FromUtf8 => String::from_str("Error converting URL-encoded string"),
            Error::DurationOutOfRange => String::from_str("Tower-Cookies time error: Source value is out of range for the target type"),
            Error::InvalidState => String::from_str("Invalid OAuth State"),
            Error::CodeExchangeFailed => String::from_str("OAuth Code Exchange Failed"),
            Error::NoToken => String::from_str("No token found - reauthenticating"),
            Error::InvalidDateTime => String::from_str("Invalid datetime detected"),
            Error::UninitializedOnceCell => String::from_str(
                "Once cell uninitialized, please make an issue",
            ),
        }
    }

    /// What to do about the failure. A missing credential is no failure to
    /// show: the visitor is sent to sign in. Everything else gets the failure
    /// page.
    pub fn response_plan(&self) -> (plan: ResponsePlan)
        ensures
            plan == (if *self is NoToken {
                ResponsePlan::Redirect(LOGIN_PATH)
            } else {
                ResponsePlan::RenderPage
            }),
    {
        match self {
            Error::NoToken => ResponsePlan::Redirect(LOGIN_PATH),
            _ => ResponsePlan::RenderPage,
        }
    }

    /// The answer of last resort: plain text with the failure's message, for
    /// when the failure page itself cannot be shown.
    pub fn to_ugly_response(&self) -> (reply: Reply)
        ensures
            reply matches Reply::Plain { status, body } && status == FALLBACK_STATUS && body@
                == FALLBACK_PREAMBLE@ + self.message_text(),
    {
        let text = self.message();
        Reply::Plain {
            status: FALLBACK_STATUS,
            body: String::from_str(FALLBACK_PREAMBLE).concat(text.as_str()),
        }
    }

    /// The answer to a request that failed with `self`, given how rendering
    /// the failure page went.
    ///
    /// `NoToken` redirects to [`LOGIN_PATH`] whatever `page` is. Otherwise a
    /// rendered page is shown; a renderer that was never set up, or that
    /// failed, is answered in plain text with that second failure.
    pub fn into_response(self, page: PageOutcome) -> (reply: Reply)
        ensures
            self is NoToken ==> reply == Reply::Redirect(LOGIN_PATH),
            !(self is NoToken) ==> match page {
                PageOutcome::Rendered(html) => reply == Reply::Page(html),
                PageOutcome::Unavailable => reply matches Reply::Plain { status, body } && status
                    == FALLBACK_STATUS && body@ == FALLBACK_PREAMBLE@
                    + Error::UninitializedOnceCell.message_text(),
                PageOutcome::Failed(detail) => reply matches Reply::Plain { status, body }
                    && status == FALLBACK_STATUS && body@ == FALLBACK_PREAMBLE@ + Error::Tera(
                    detail,
                ).message_text(),
            },
    {
        match self {
            Error::NoToken => Reply::Redirect(LOGIN_PATH),
            _ => match page {
                PageOutcome::Rendered(html) => Reply::Page(html),
                PageOutcome::Unavailable => Error::UninitializedOnceCell.to_ugly_response(),
                PageOutcome::Failed(detail) => Error::Tera(detail).to_ugly_response(),
            },
        }
    }
}

} // verus!
