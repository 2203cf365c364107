//! Client for interacting with the Last.fm API.
//!
//! The client holds the credentials and the endpoint. It prepares each call
//! as a [`Request`], which a transport sends, and it classifies what the
//! transport brings back. It sends nothing itself.

use std::time::Duration;
use vstd::prelude::*;
use vstd::string::StringExecFns;

use crate::error::Error;
use crate::error::ErrorResponse;
use crate::error::JsonError;
use crate::error::RequestError;
use crate::error::UrlParseError;
use crate::params::ParameterSet;
use crate::params::Parameters;
use crate::sig::create_sig;
use crate::sig::lemma_further_parameter_changes_sign_base;
use crate::sig::sign_base;
use crate::sig::signature;

verus! {

/// Default Last.fm API base URL.
pub const LASTFM_API_BASE: &'static str = "https://ws.audioscrobbler.com/2.0/";

/// Default User-Agent string.
pub const DEFAULT_USER_AGENT: &'static str = "soniq/0.1.0 (https://github.com/CleeSim/soniq)";

/// Default request timeout in seconds.
pub const DEFAULT_TIMEOUT_SECS: u64 = 10;

/// The duration of a number of whole seconds.
pub uninterp spec fn duration_from_secs(secs: u64) -> Duration;

/// `Duration::from_secs` makes the duration of the given number of whole
/// seconds.
pub assume_specification[ Duration::from_secs ](secs: u64) -> (duration: Duration)
    ensures
        duration == duration_from_secs(secs),
;

/// What a client is configured with.
pub struct Settings {
    pub api_key: Seq<char>,
    pub api_secret: Option<Seq<char>>,
    pub timeout: Duration,
    pub user_agent: Seq<char>,
    pub base_url: Seq<char>,
}

/// The text of an optional string.
pub open spec fn text_of(s: Option<String>) -> Option<Seq<char>> {
    match s {
        Some(s) => Some(s@),
        None => None,
    }
}

/// What `Url::parse` makes of a text: the URL it read, in its serialized
/// form, or its reason for refusing the text.
pub uninterp spec fn url_parse(input: Seq<char>) -> Result<Seq<char>, UrlParseError>;

/// `url::Url::parse`, with the parsed URL handed back as its serialization
/// and the crate's error as the variant of the same name. The outcome
/// depends on the input text alone.
#[verifier::external_body]
fn parse_url(input: &str) -> (parsed: Result<String, UrlParseError>)
    ensures
        match parsed {
            Ok(url) => url_parse(input@) == Ok::<Seq<char>, UrlParseError>(url@),
            Err(e) => url_parse(input@) == Err::<Seq<char>, UrlParseError>(e),
        },
{
    match url::Url::parse(input) {
        Ok(url) => Ok(String::from(url)),
        Err(url::ParseError::EmptyHost) => Err(UrlParseError::EmptyHost),
        Err(url::ParseError::IdnaError) => Err(UrlParseError::IdnaError),
        Err(url::ParseError::InvalidPort) => Err(UrlParseError::InvalidPort),
        Err(url::ParseError::InvalidIpv4Address) => Err(UrlParseError::InvalidIpv4Address),
        Err(url::ParseError::InvalidIpv6Address) => Err(UrlParseError::InvalidIpv6Address),
        Err(url::ParseError::InvalidDomainCharacter) => Err(UrlParseError::InvalidDomainCharacter),
        Err(url::ParseError::RelativeUrlWithoutBase) => Err(UrlParseError::RelativeUrlWithoutBase),
        Err(url::ParseError::RelativeUrlWithCannotBeABaseBase) => Err(UrlParseError::RelativeUrlWithCannotBeABaseBase),
        Err(url::ParseError::SetHostOnCannotBeABaseUrl) => Err(UrlParseError::SetHostOnCannotBeABaseUrl),
        Err(url::ParseError::Overflow) => Err(UrlParseError::Overflow),
        Err(_) => Err(UrlParseError::Other),
    }
}

/// Builder for [`Client`].
#[derive(Debug)]
pub struct ClientBuilder {
    api_key: String,
    api_secret: Option<String>,
    timeout: Duration,
    user_agent: String,
    base_url: String,
}

impl View for ClientBuilder {
    type V = Settings;

    closed spec fn view(&self) -> Settings {
        Settings {
            api_key: self.api_key@,
            api_secret: text_of(self.api_secret),
            timeout: self.timeout,
            user_agent: self.user_agent@,
            base_url: self.base_url@,
        }
    }
}

impl ClientBuilder {
    /// Creates a new builder with the mandatory API key. The builder has
    /// no secret, a timeout of ten seconds, the default User-Agent and the
    /// Last.fm base URL.
    pub fn new(api_key: &str) -> (builder: ClientBuilder)
        ensures
            builder@ == (Settings {
                api_key: api_key@,
                api_secret: None,
                timeout: duration_from_secs(DEFAULT_TIMEOUT_SECS),
                user_agent: DEFAULT_USER_AGENT@,
                base_url: LASTFM_API_BASE@,
            }),
    {
        ClientBuilder {
            api_key: api_key.to_owned(),
            api_secret: None,
            timeout: Duration::from_secs(DEFAULT_TIMEOUT_SECS),
            user_agent: DEFAULT_USER_AGENT.to_owned(),
            base_url: LASTFM_API_BASE.to_owned(),
        }
    }

    /// Sets the API secret, required for any signed API calls.
    pub fn api_secret(self, secret: &str) -> (builder: ClientBuilder)
        ensures
            builder@ == (Settings { api_secret: Some(secret@), ..self@ }),
    {
        let mut builder = self;
        builder.api_secret = Some(secret.to_owned());
        builder
    }

    /// Sets the request timeout for all API calls.
    pub fn timeout(self, duration: Duration) -> (builder: ClientBuilder)
        ensures
            builder@ == (Settings { timeout: duration, ..self@ }),
    {
        let mut builder = self;
        builder.timeout = duration;
        builder
    }

    /// Overrides the Last.fm API base URL (e.g., for testing or proxies).
    ///
    /// The text has to be an absolute URL. It is kept as `Url::parse` read
    /// it; a text that is refused leaves no builder behind.
    pub fn base_url(self, url: &str) -> (result: Result<ClientBuilder, UrlParseError>)
        ensures
            match result {
                Ok(builder) => url_parse(url@) == Ok::<Seq<char>, UrlParseError>(
                    builder@.base_url,
                ) && builder@ == (Settings { base_url: builder@.base_url, ..self@ }),
                Err(e) => url_parse(url@) == Err::<Seq<char>, UrlParseError>(e),
            },
    {
        match parse_url(url) {
            Ok(parsed) => {
                let mut builder = self;
                builder.base_url = parsed;
                Ok(builder)
            },
            Err(e) => Err(e),
        }
    }

    /// Builds the `Client`.
    ///
    /// Building the settings into a client cannot fail: the base URL was
    /// read when it was set. The result leaves room for the failures of
    /// whoever builds a transport alongside.
    pub fn build(self) -> (result: Result<Client, Error>)
        ensures
            result matches Ok(client) && client@ == self@,
    {
        Ok(
            Client {
                api_key: self.api_key,
                api_secret: self.api_secret,
                timeout: self.timeout,
                user_agent: self.user_agent,
                base_url: self.base_url,
            },
        )
    }
}

/// Client to interact with the Last.fm API.
///
/// Use [`Client::builder()`] to construct a new client. A client does not
/// change once it is built.
#[derive(Debug)]
pub struct Client {
    api_key: String,
    api_secret: Option<String>,
    timeout: Duration,
    user_agent: String,
    base_url: String,
}

impl View for Client {
    type V = Settings;

    closed spec fn view(&self) -> Settings {
        Settings {
            api_key: self.api_key@,
            api_secret: text_of(self.api_secret),
            timeout: self.timeout,
            user_agent: self.user_agent@,
            base_url: self.base_url@,
        }
    }
}

/// How a request is sent.
#[derive(Debug, Clone, Copy, PartialEq, Eq)]
pub enum HttpMethod {
    /// As a GET, with the parameters in the query string.
    Get,
    /// As a POST, with the parameters as a url-encoded form body.
    Post,
}

/// A call that is ready to be sent to the base URL: how to send it, and the
/// full set of parameters to send. A request does not change once it is
/// prepared.
#[derive(Debug)]
pub struct Request {
    http_method: HttpMethod,
    params: ParameterSet,
}

impl Request {
    /// How the request is to be sent.
    pub closed spec fn spec_http_method(&self) -> HttpMethod {
        self.http_method
    }

    /// The parameters to send.
    pub closed spec fn spec_params(&self) -> &ParameterSet {
        &self.params
    }

    /// How the request is to be sent.
    #[verifier::when_used_as_spec(spec_http_method)]
    pub fn http_method(&self) -> (http_method: HttpMethod)
        ensures
            http_method == self.http_method(),
    {
        self.http_method
    }

    /// The parameters to send.
    #[verifier::when_used_as_spec(spec_params)]
    pub fn params(&self) -> (params: &ParameterSet)
        ensures
            params == self.params(),
    {
        &self.params
    }
}

/// What the transport received: the HTTP status code and the body as text.
#[derive(Debug, PartialEq, Eq)]
pub struct Response {
    pub status: u16,
    pub text: String,
}

impl Clone for Response {
    fn clone(&self) -> (copy: Response)
        ensures
            copy == *self,
    {
        Response { status: self.status, text: self.text.clone() }
    }
}

impl View for Response {
    type V = (u16, Seq<char>);

    open spec fn view(&self) -> (u16, Seq<char>) {
        (self.status, self.text@)
    }
}

/// The text of an optional session key.
pub open spec fn session_text(session_key: Option<&str>) -> Option<Seq<char>> {
    match session_key {
        Some(key) => Some(key@),
        None => None,
    }
}

/// The parameters of an unsigned call: the caller's, then `method`,
/// `api_key` and `format=json`, each replacing a parameter of that name.
pub open spec fn unsigned_parameters(
    params: Parameters,
    method: Seq<char>,
    api_key: Seq<char>,
) -> Parameters {
    params.insert("method"@, method).insert("api_key"@, api_key).insert("format"@, "json"@)
}

/// The parameters that the signature of a signed call is made from: the
/// caller's, then `method`, `api_key` and, with a session key, `sk`.
pub open spec fn call_parameters(
    params: Parameters,
    method: Seq<char>,
    api_key: Seq<char>,
    session_key: Option<Seq<char>>,
) -> Parameters {
    let named = params.insert("method"@, method).insert("api_key"@, api_key);
    match session_key {
        Some(key) => named.insert("sk"@, key),
        None => named,
    }
}

/// The parameters of a signed call: those that are signed, then `api_sig`
/// with their signature, then `format=json`.
pub open spec fn signed_parameters(
    params: Parameters,
    method: Seq<char>,
    api_key: Seq<char>,
    session_key: Option<Seq<char>>,
    secret: Seq<char>,
) -> Parameters {
    let signed = call_parameters(params, method, api_key, session_key);
    signed.insert("api_sig"@, signature(signed, secret)).insert("format"@, "json"@)
}

/// The status denotes success: it is one of 200 to 299.
pub open spec fn is_success(status: u16) -> bool {
    200 <= status < 300
}

/// What a call returns on a success status, given what the decoder made of
/// the body: the decoded value, or a JSON error that holds the decoder's
/// objection and the body.
pub open spec fn success_result<T>(text: String, decoded: Result<T, String>) -> Result<T, Error> {
    match decoded {
        Ok(value) => Ok(value),
        Err(reason) => Err(Error::Json(JsonError { reason, text })),
    }
}

/// The error of a call on a failure status, given what the body held: the
/// service's own error if the body was one, else an HTTP error that holds
/// the status and the body.
pub open spec fn failure_error(status: u16, text: String, remote: Option<ErrorResponse>) -> Error {
    match remote {
        Some(response) => Error::LastFm(response),
        None => Error::Http { status, text },
    }
}

/// The decoder that a response calls for may be called on its body: the
/// decoder of values on a success status, the decoder of the service's
/// errors on any other.
pub open spec fn may_handle<T, D, P>(res: Response, decode: D, parse_error: P) -> bool where
    D: FnOnce(&String) -> Result<T, String>,
    P: FnOnce(&String) -> Option<ErrorResponse>,
 {
    if is_success(res.status) {
        call_requires(decode, (&res.text,))
    } else {
        call_requires(parse_error, (&res.text,))
    }
}

/// `result` is what a response comes to: on a success status what
/// [`success_result`] makes of an answer of `decode` to the body, on any
/// other status what [`failure_error`] makes of an answer of `parse_error`
/// to it.
pub open spec fn handles<T, D, P>(
    res: Response,
    decode: D,
    parse_error: P,
    result: Result<T, Error>,
) -> bool where
    D: FnOnce(&String) -> Result<T, String>,
    P: FnOnce(&String) -> Option<ErrorResponse>,
 {
    if is_success(res.status) {
        exists|decoded: Result<T, String>| #[trigger]
            call_ensures(decode, (&res.text,), decoded) && result == success_result(
                res.text,
                decoded,
            )
    } else {
        exists|remote: Option<ErrorResponse>| #[trigger]
            call_ensures(parse_error, (&res.text,), remote) && result == Err::<T, Error>(
                failure_error(res.status, res.text, remote),
            )
    }
}

/// The signature of a signed call is made from the parameters that are
/// sent, `api_sig` and `format` left out; and with `format=json` among the
/// signed parameters another text would have been digested.
///
/// This holds of calls whose own parameters name neither `api_sig` nor
/// `format`.
pub proof fn lemma_signature_leaves_out_format(
    params: Parameters,
    method: Seq<char>,
    api_key: Seq<char>,
    session_key: Option<Seq<char>>,
    secret: Seq<char>,
)
    requires
        params.dom().finite(),
        !params.dom().contains("api_sig"@),
        !params.dom().contains("format"@),
    ensures
        ({
            let sent = signed_parameters(params, method, api_key, session_key, secret);
            let signed = sent.remove("format"@).remove("api_sig"@);
            &&& signed == call_parameters(params, method, api_key, session_key)
            &&& !signed.dom().contains("format"@)
            &&& sent["api_sig"@] == signature(signed, secret)
            &&& sent["format"@] == "json"@
            &&& sign_base(signed.insert("format"@, "json"@), secret) != sign_base(signed, secret)
        }),
{
    reveal_strlit("api_sig");
    reveal_strlit("format");
    reveal_strlit("method");
    reveal_strlit("api_key");
    reveal_strlit("sk");
    reveal_strlit("json");
    assert("api_sig"@.len() != "format"@.len());
    assert("api_sig"@.len() != "method"@.len());
    assert("api_sig"@[4] != "api_key"@[4]);
    assert("api_sig"@.len() != "sk"@.len());
    assert("format"@[0] != "method"@[0]);
    assert("format"@.len() != "api_key"@.len());
    assert("format"@.len() != "sk"@.len());
    let call = call_parameters(params, method, api_key, session_key);
    let sent = signed_parameters(params, method, api_key, session_key, secret);
    assert(sent.remove("format"@).remove("api_sig"@) =~= call);
    lemma_further_parameter_changes_sign_base(call, "format"@, "json"@, secret);
}

impl Client {
    /// Creates a new builder with the mandatory API key.
    pub fn builder(api_key: &str) -> (builder: ClientBuilder)
        ensures
            builder@ == (Settings {
                api_key: api_key@,
                api_secret: None,
                timeout: duration_from_secs(DEFAULT_TIMEOUT_SECS),
                user_agent: DEFAULT_USER_AGENT@,
                base_url: LASTFM_API_BASE@,
            }),
    {
        ClientBuilder::new(api_key)
    }

    /// The API key.
    pub fn api_key(&self) -> (key: &String)
        ensures
            key@ == self@.api_key,
    {
        &self.api_key
    }

    /// The API secret, if the client has one.
    pub fn api_secret(&self) -> (secret: Option<&String>)
        ensures
            match secret {
                Some(s) => self@.api_secret == Some(s@),
                None => self@.api_secret is None,
            },
    {
        match &self.api_secret {
            Some(s) => Some(s),
            None => None,
        }
    }

    /// The base URL that requests go to.
    pub fn base_url(&self) -> (url: &String)
        ensures
            url@ == self@.base_url,
    {
        &self.base_url
    }

    /// The timeout for each request.
    pub fn timeout(&self) -> (duration: Duration)
        ensures
            duration == self@.timeout,
    {
        self.timeout
    }

    /// The User-Agent header sent with each request.
    pub fn user_agent(&self) -> (agent: &String)
        ensures
            agent@ == self@.user_agent,
    {
        &self.user_agent
    }

    /// Prepares an unsigned GET request to the Last.fm API.
    pub fn unsigned_get(&self, method: &str, params: ParameterSet) -> (request: Request)
        ensures
            request.http_method() == HttpMethod::Get,
            request.params()@ == unsigned_parameters(params@, method@, self@.api_key),
            request.params()@.dom().contains("api_sig"@) == params@.dom().contains("api_sig"@),
    {
        let mut params = params;
        params.insert("method".to_owned(), method.to_owned());
        params.insert("api_key".to_owned(), self.api_key.clone());
        params.insert("format".to_owned(), "json".to_owned());
        proof {
            reveal_strlit("api_sig");
            reveal_strlit("method");
            reveal_strlit("api_key");
            reveal_strlit("format");
            assert("api_sig"@.len() != "method"@.len());
            assert("api_sig"@[4] != "api_key"@[4]);
            assert("api_sig"@.len() != "format"@.len());
        }
        Request { http_method: HttpMethod::Get, params }
    }

    /// Prepares a signed POST request without a user session key.
    ///
    /// This is for methods that require a signature but don't operate on a
    /// specific user's account.
    pub fn signed_post(&self, method: &str, params: ParameterSet) -> (result: Result<
        Request,
        Error,
    >)
        ensures
            match result {
                Ok(request) => self@.api_secret is Some && request.http_method() == HttpMethod::Post
                    && request.params()@ == signed_parameters(
                    params@,
                    method@,
                    self@.api_key,
                    None,
                    self@.api_secret->0,
                ),
                Err(e) => self@.api_secret is None && e == Error::MissingApiSecret,
            },
    {
        self.signed_post_with_session(method, None, params)
    }

    /// Prepares a signed POST request with an optional user session key.
    ///
    /// Pass `Some(session_key)` to authenticate on behalf of a user.
    /// This requires the client to have been built with an API secret:
    /// without one the call fails with [`Error::MissingApiSecret`] and
    /// there is nothing to send. The signature is made from the parameters
    /// as they stand before `api_sig` and `format` are added.
    pub fn signed_post_with_session(
        &self,
        method: &str,
        session_key: Option<&str>,
        params: ParameterSet,
    ) -> (result: Result<Request, Error>)
        ensures
            match result {
                Ok(request) => self@.api_secret is Some && request.http_method() == HttpMethod::Post
                    && request.params()@ == signed_parameters(
                    params@,
                    method@,
                    self@.api_key,
                    session_text(session_key),
                    self@.api_secret->0,
                ) && request.params()@.dom().contains("api_sig"@),
                Err(e) => self@.api_secret is None && e == Error::MissingApiSecret,
            },
    {
        let api_secret = match &self.api_secret {
            Some(secret) => secret,
            None => {
                return Err(Error::MissingApiSecret);
            },
        };
        let mut params = params;
        params.insert("method".to_owned(), method.to_owned());
        params.insert("api_key".to_owned(), self.api_key.clone());
        if let Some(sk) = session_key {
            params.insert("sk".to_owned(), sk.to_owned());
        }
        let sig = create_sig(&params, api_secret.as_str());
        params.insert("api_sig".to_owned(), sig);
        params.insert("format".to_owned(), "json".to_owned());
        proof {
            reveal_strlit("api_sig");
            reveal_strlit("format");
        }
        Ok(Request { http_method: HttpMethod::Post, params })
    }

    /// Whether a status denotes success.
    pub fn status_is_success(status: u16) -> (success: bool)
        ensures
            success == is_success(status),
    {
        200 <= status && status < 300
    }

    /// Concludes a call that came back with a success status, from what
    /// the decoder made of the body.
    pub fn handle_success<T>(text: String, decoded: Result<T, String>) -> (result: Result<T, Error>)
        ensures
            result == success_result(text, decoded),
    {
        match decoded {
            Ok(value) => Ok(value),
            Err(reason) => Err(Error::Json(JsonError { reason, text })),
        }
    }

    /// Concludes a call that came back with a failure status, from what the
    /// body held: the service's structured error, if the body was one.
    pub fn handle_failure(status: u16, text: String, remote: Option<ErrorResponse>) -> (error:
        Error)
        ensures
            error == failure_error(status, text, remote),
    {
        match remote {
            Some(response) => Error::LastFm(response),
            None => Error::Http { status, text },
        }
    }

    /// Handles a response: decodes the body or returns errors accordingly.
    ///
    /// On a success status the body is handed to `decode`, which says what
    /// value it holds or why it holds none. On any other status the body is
    /// handed to `parse_error`, which says whether it is the service's
    /// structured error. Exactly one of the two is called, once.
    pub fn handle_response<T, D, P>(res: Response, decode: D, parse_error: P) -> (result: Result<
        T,
        Error,
    >) where D: FnOnce(&String) -> Result<T, String>, P: FnOnce(&String) -> Option<ErrorResponse>
        requires
            may_handle(res, decode, parse_error),
        ensures
            handles(res, decode, parse_error, result),
    {
        let status = res.status;
        let text = res.text;
        if Self::status_is_success(status) {
            let decoded = decode(&text);
            Self::handle_success(text, decoded)
        } else {
            let remote = parse_error(&text);
            Err(Self::handle_failure(status, text, remote))
        }
    }

    /// Concludes a call from what the transport brought back: a failure of
    /// the transport is returned as it is, a response is handled by
    /// [`Client::handle_response`].
    pub fn conclude<T, D, P>(
        reply: Result<Response, RequestError>,
        decode: D,
        parse_error: P,
    ) -> (result: Result<T, Error>) where
        D: FnOnce(&String) -> Result<T, String>,
        P: FnOnce(&String) -> Option<ErrorResponse>,

        requires
            reply matches Ok(res) ==> may_handle(res, decode, parse_error),
        ensures
            match reply {
                Ok(res) => handles(res, decode, parse_error, result),
                Err(failure) => result == Err::<T, Error>(Error::Request(failure)),
            },
    {
        match reply {
            Ok(res) => Self::handle_response(res, decode, parse_error),
            Err(failure) => Err(Error::Request(failure)),
        }
    }
}

impl Clone for Client {
    fn clone(&self) -> (copy: Client)
        ensures
            copy == *self,
    {
        Client {
            api_key: self.api_key.clone(),
            api_secret: match &self.api_secret {
                Some(secret) => Some(secret.clone()),
                None => None,
            },
            timeout: self.timeout,
            user_agent: self.user_agent.clone(),
            base_url: self.base_url.clone(),
        }
    }
}

} // verus!
