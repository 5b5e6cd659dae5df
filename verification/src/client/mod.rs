//! What the HTTP side decides: file names, metadata and range replies.
use crate::text;
use vstd::prelude::*;

pub mod filename;
pub mod headers;
pub mod metadata;
pub mod range;

pub use filename::extract_filename;
pub use metadata::RemoteFileInfo;

verus! {

/// An HTTP status code.
#[derive(Debug, Clone, Copy, PartialEq, Eq)]
pub struct HttpStatus {
    code: u16,
}

impl HttpStatus {
    #[verifier::type_invariant]
    spec fn valid(self) -> bool {
        100 <= self.code < 1000
    }

    pub closed spec fn spec_code(self) -> int {
        self.code as int
    }

    /// A status with a code of three digits.
    pub fn new(code: u16) -> (r: Option<HttpStatus>)
        ensures
            r is Some <==> 100 <= code < 1000,
            r matches Some(status) ==> status.spec_code() == code,
    {
        if 100 <= code && code < 1000 {
            Some(HttpStatus { code })
        } else {
            None
        }
    }

    pub fn code(self) -> (r: u16)
        ensures
            r == self.spec_code(),
            100 <= r < 1000,
    {
        proof {
            use_type_invariant(&self);
        }
        self.code
    }

    pub fn is_success(self) -> (r: bool)
        ensures
            r == (200 <= self.spec_code() < 300),
    {
        200 <= self.code && self.code < 300
    }

    pub fn is_server_error(self) -> (r: bool)
        ensures
            r == (500 <= self.spec_code() < 600),
    {
        500 <= self.code && self.code < 600
    }

    /// The code with its reason phrase.
    pub fn text(self) -> (r: String)
        ensures
            r@ == status_display(self.spec_code()),
    {
        let code: u16 = self.code();
        status_text(code)
    }
}

/// The text of a status: its code and reason phrase.
pub uninterp spec fn status_display(code: int) -> Seq<char>;

/// The `Display` text of `reqwest::StatusCode`: a function of the code. Which phrase belongs to
/// which code is left unsaid.
#[verifier::external_body]
fn status_text(code: u16) -> (r: String)
    requires
        100 <= code < 1000,
    ensures
        r@ == status_display(code as int),
{
    match reqwest::StatusCode::from_u16(code) {
        Ok(status) => status.to_string(),
        Err(error) => error.to_string(),
    }
}

/// A failed exchange: what the transport says of it, and which stages it blames.
#[derive(Debug)]
pub struct HttpFault {
    pub message: String,
    pub builder: bool,
    pub decode: bool,
    pub connect: bool,
    pub timeout: bool,
    pub request: bool,
    pub body: bool,
}

impl HttpFault {
    /// Failures of the exchange itself, before a body is decoded, may pass when tried again.
    pub open spec fn request_retryable(self) -> bool {
        !self.builder && !self.decode && (self.connect || self.timeout || self.request
            || self.body)
    }

    /// Lower-level frame failures of a body surface as decode failures.
    pub open spec fn body_retryable(self) -> bool {
        self.request_retryable() || (!self.builder && self.decode)
    }

    pub fn is_retryable_request_error(&self) -> (r: bool)
        ensures
            r == self.request_retryable(),
    {
        !self.builder && !self.decode && (self.connect || self.timeout || self.request
            || self.body)
    }

    pub fn is_retryable_body_error(&self) -> (r: bool)
        ensures
            r == self.body_retryable(),
    {
        self.is_retryable_request_error() || (!self.builder && self.decode)
    }

    pub fn copy(&self) -> (r: HttpFault)
        ensures
            r == *self,
    {
        HttpFault {
            message: self.message.clone(),
            builder: self.builder,
            decode: self.decode,
            connect: self.connect,
            timeout: self.timeout,
            request: self.request,
            body: self.body,
        }
    }
}

/// Why a request gave nothing usable.
#[derive(Debug)]
pub enum ClientError {
    Http(HttpFault),
    InvalidUrl(String),
    BadStatus(HttpStatus, String),
    InvalidRangeResponse(String),
    ContentChanged,
}

/// What a client error says.
pub enum ClientFault {
    Http(HttpFault),
    InvalidUrl(Seq<char>),
    BadStatus(int, Seq<char>),
    InvalidRangeResponse(Seq<char>),
    ContentChanged,
}

impl View for ClientError {
    type V = ClientFault;

    open spec fn view(&self) -> ClientFault {
        match self {
            ClientError::Http(fault) => ClientFault::Http(*fault),
            ClientError::InvalidUrl(text) => ClientFault::InvalidUrl(text@),
            ClientError::BadStatus(status, text) => ClientFault::BadStatus(
                status.spec_code(),
                text@,
            ),
            ClientError::InvalidRangeResponse(text) => ClientFault::InvalidRangeResponse(text@),
            ClientError::ContentChanged => ClientFault::ContentChanged,
        }
    }
}

impl ClientFault {
    pub open spec fn message(self) -> Seq<char> {
        match self {
            ClientFault::Http(fault) => "HTTP request error: "@ + fault.message@,
            ClientFault::InvalidUrl(text) => "Invalid URL: "@ + text,
            ClientFault::BadStatus(code, text) => "Server returned status "@ + status_display(code)
                + ": "@ + text,
            ClientFault::InvalidRangeResponse(text) => "Invalid range response: "@ + text,
            ClientFault::ContentChanged => "Remote file content changed"@,
        }
    }

    /// A failed request may pass when tried again; a refusal by the server only where it says so.
    pub open spec fn retryable(self) -> bool {
        match self {
            ClientFault::Http(fault) => fault.request_retryable(),
            ClientFault::BadStatus(code, _) => code == 408 || code == 429 || 500 <= code < 600,
            _ => false,
        }
    }
}

impl ClientError {
    /// The message shown to the user.
    pub fn message(&self) -> (r: String)
        ensures
            r@ == self@.message(),
    {
        match self {
            ClientError::Http(fault) => text::join2(
                "HTTP request error: ",
                fault.message.as_str(),
            ),
            ClientError::InvalidUrl(reason) => text::join2("Invalid URL: ", reason.as_str()),
            ClientError::BadStatus(status, reason) => {
                let shown = status.text();
                text::join4("Server returned status ", shown.as_str(), ": ", reason.as_str())
            },
            ClientError::InvalidRangeResponse(reason) => text::join2(
                "Invalid range response: ",
                reason.as_str(),
            ),
            ClientError::ContentChanged => "Remote file content changed".to_string(),
        }
    }

    pub fn is_retryable(&self) -> (r: bool)
        ensures
            r == self@.retryable(),
    {
        match self {
            ClientError::Http(fault) => fault.is_retryable_request_error(),
            ClientError::BadStatus(status, _) => {
                let code: u16 = status.code();
                code == 408 || code == 429 || status.is_server_error()
            },
            _ => false,
        }
    }

    pub fn is_content_changed(&self) -> (r: bool)
        ensures
            r == (self@ == ClientFault::ContentChanged),
    {
        match self {
            ClientError::ContentChanged => true,
            _ => false,
        }
    }
}

/// Law: trying again is worth it exactly after a broken exchange that was not refused beforehand,
/// and after a time-out, a rate limit or a server error that the server reports.
pub proof fn law_only_passing_failures_are_retried(fault: ClientFault)
    ensures
        fault is ContentChanged || fault is InvalidUrl || fault is InvalidRangeResponse
            ==> !fault.retryable(),
        fault matches ClientFault::BadStatus(code, _) ==> (fault.retryable() <==> code == 408 || code
            == 429 || (500 <= code && code <= 599)),
        fault matches ClientFault::Http(http) ==> {
            &&& fault.retryable() ==> !http.builder && !http.decode
            &&& !http.builder && !http.decode && (http.connect || http.timeout) ==> fault.retryable()
            &&& http.builder ==> !http.body_retryable()
            &&& !http.builder && http.decode ==> http.body_retryable()
            &&& fault.retryable() ==> http.body_retryable()
        },
{
}

} // verus!
