//! Error types for the Soniq client.

use vstd::prelude::*;
use vstd::string::StringExecFns;

use crate::text::decimal;
use crate::text::push_decimal;

verus! {

/// An error response from the Last.fm API: the numeric code of the failure
/// and the service's message for it.
///
/// See <https://www.last.fm/api/errorcodes> for a list of error codes.
#[derive(Debug, PartialEq, Eq)]
pub struct ErrorResponse {
    pub error: u32,
    pub message: String,
}

/// An error response as a value: the code and the text of the message.
pub struct ErrorResponseView {
    pub error: u32,
    pub message: Seq<char>,
}

impl View for ErrorResponse {
    type V = ErrorResponseView;

    open spec fn view(&self) -> ErrorResponseView {
        ErrorResponseView { error: self.error, message: self.message@ }
    }
}

impl Clone for ErrorResponse {
    fn clone(&self) -> (copy: ErrorResponse)
        ensures
            copy == *self,
    {
        ErrorResponse { error: self.error, message: self.message.clone() }
    }
}

impl ErrorResponse {
    /// The error in words: `Error `, the code, a colon and the message.
    pub open spec fn text(&self) -> Seq<char> {
        "Error "@ + decimal(self.error as nat) + ": "@ + self.message@
    }

    /// The error in words, such as `Error 10: Invalid API key`.
    pub fn to_string(&self) -> (text: String)
        ensures
            text@ == self.text(),
    {
        let mut text = String::from_str("Error ");
        push_decimal(&mut text, self.error as u64);
        text.append(": ");
        text.append(self.message.as_str());
        text
    }
}

/// Why the transport could not complete a request.
#[derive(Debug, Clone, Copy, PartialEq, Eq)]
pub enum RequestErrorKind {
    /// The configured timeout ran out.
    Timeout,
    /// No connection could be made (refused, DNS or TLS failure).
    Connect,
    /// Any other failure to send the request or to read the response.
    Other,
}

/// A failure of the transport: the call produced no status and body.
#[derive(Debug, PartialEq, Eq)]
pub struct RequestError {
    pub kind: RequestErrorKind,
    pub message: String,
}

/// A failure of the transport as a value.
pub struct RequestErrorView {
    pub kind: RequestErrorKind,
    pub message: Seq<char>,
}

impl View for RequestError {
    type V = RequestErrorView;

    open spec fn view(&self) -> RequestErrorView {
        RequestErrorView { kind: self.kind, message: self.message@ }
    }
}

impl Clone for RequestError {
    fn clone(&self) -> (copy: RequestError)
        ensures
            copy == *self,
    {
        RequestError { kind: self.kind, message: self.message.clone() }
    }
}

/// A body that did not decode into the value expected of a successful call.
#[derive(Debug, PartialEq, Eq)]
pub struct JsonError {
    /// What the decoder objected to.
    pub reason: String,
    /// The body as it was received.
    pub text: String,
}

/// A decoding failure as a value.
pub struct JsonErrorView {
    pub reason: Seq<char>,
    pub text: Seq<char>,
}

impl View for JsonError {
    type V = JsonErrorView;

    open spec fn view(&self) -> JsonErrorView {
        JsonErrorView { reason: self.reason@, text: self.text@ }
    }
}

impl Clone for JsonError {
    fn clone(&self) -> (copy: JsonError)
        ensures
            copy == *self,
    {
        JsonError { reason: self.reason.clone(), text: self.text.clone() }
    }
}

/// Why a text is not an absolute URL.
#[derive(Debug, Clone, Copy, PartialEq, Eq)]
pub enum UrlParseError {
    /// The host is empty.
    EmptyHost,
    /// The host is no valid international domain name.
    IdnaError,
    /// The port is no number that a port can have.
    InvalidPort,
    /// The host ends in a number and is no valid IPv4 address.
    InvalidIpv4Address,
    /// The host stands in brackets and is no valid IPv6 address.
    InvalidIpv6Address,
    /// The host holds a character that no host can hold.
    InvalidDomainCharacter,
    /// The text is a relative URL, and there is no base to read it from.
    RelativeUrlWithoutBase,
    /// The text is a relative URL, and the base cannot be one.
    RelativeUrlWithCannotBeABaseBase,
    /// The URL cannot be a base and so has no host to set.
    SetHostOnCannotBeABaseUrl,
    /// The URL is longer than four gigabytes.
    Overflow,
    /// A reason that this list does not know by name.
    Other,
}

/// Errors that can occur when interacting with the Last.fm API.
#[derive(Debug, PartialEq, Eq)]
pub enum Error {
    /// An API secret is required for this method but was not provided.
    MissingApiSecret,
    /// A Last.fm-specific error response.
    /// See [`ErrorResponse`].
    LastFm(ErrorResponse),
    /// An HTTP error that is not a specific Last.fm error.
    /// This can happen for non-2xx responses that don't conform to the
    /// Last.fm error format.
    Http { status: u16, text: String },
    /// A network or request-related error from the underlying HTTP
    /// transport.
    Request(RequestError),
    /// A JSON deserialization error.
    Json(JsonError),
    /// An error parsing a URL.
    UrlParse(UrlParseError),
}

/// An error as a value: the variant and the texts that it holds.
pub enum ErrorView {
    MissingApiSecret,
    LastFm(ErrorResponseView),
    Http { status: u16, text: Seq<char> },
    Request(RequestErrorView),
    Json(JsonErrorView),
    UrlParse(UrlParseError),
}

impl View for Error {
    type V = ErrorView;

    open spec fn view(&self) -> ErrorView {
        match *self {
            Error::MissingApiSecret => ErrorView::MissingApiSecret,
            Error::LastFm(response) => ErrorView::LastFm(response@),
            Error::Http { status, text } => ErrorView::Http { status, text: text@ },
            Error::Request(failure) => ErrorView::Request(failure@),
            Error::Json(failure) => ErrorView::Json(failure@),
            Error::UrlParse(reason) => ErrorView::UrlParse(reason),
        }
    }
}

impl Clone for Error {
    fn clone(&self) -> (copy: Error)
        ensures
            copy == *self,
    {
        match self {
            Error::MissingApiSecret => Error::MissingApiSecret,
            Error::LastFm(response) => Error::LastFm(response.clone()),
            Error::Http { status, text } => Error::Http { status: *status, text: text.clone() },
            Error::Request(failure) => Error::Request(failure.clone()),
            Error::Json(failure) => Error::Json(failure.clone()),
            Error::UrlParse(reason) => Error::UrlParse(*reason),
        }
    }
}

impl From<ErrorResponse> for Error {
    fn from(response: ErrorResponse) -> (error: Error) {
        Error::LastFm(response)
    }
}

impl vstd::std_specs::convert::FromSpecImpl<ErrorResponse> for Error {
    open spec fn obeys_from_spec() -> bool {
        true
    }

    open spec fn from_spec(response: ErrorResponse) -> Error {
        Error::LastFm(response)
    }
}

impl From<RequestError> for Error {
    fn from(failure: RequestError) -> (error: Error) {
        Error::Request(failure)
    }
}

impl vstd::std_specs::convert::FromSpecImpl<RequestError> for Error {
    open spec fn obeys_from_spec() -> bool {
        true
    }

    open spec fn from_spec(failure: RequestError) -> Error {
        Error::Request(failure)
    }
}

impl From<JsonError> for Error {
    fn from(failure: JsonError) -> (error: Error) {
        Error::Json(failure)
    }
}

impl vstd::std_specs::convert::FromSpecImpl<JsonError> for Error {
    open spec fn obeys_from_spec() -> bool {
        true
    }

    open spec fn from_spec(failure: JsonError) -> Error {
        Error::Json(failure)
    }
}

impl From<UrlParseError> for Error {
    fn from(reason: UrlParseError) -> (error: Error) {
        Error::UrlParse(reason)
    }
}

impl vstd::std_specs::convert::FromSpecImpl<UrlParseError> for Error {
    open spec fn obeys_from_spec() -> bool {
        true
    }

    open spec fn from_spec(reason: UrlParseError) -> Error {
        Error::UrlParse(reason)
    }
}

} // verus!
