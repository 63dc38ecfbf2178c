//! Error taxonomy: a closed set of error kinds, each mapped to an HTTP
//! status and a stable numeric code, plus the classified-error wrapper
//! that carries a captured backtrace.

use vstd::prelude::*;
use vstd::string::StringExecFns;

use crate::numfmt::dec_rep_signed;

verus! {

/// The closed set of error kinds. Each variant carries a human-readable
/// message that is used only for internal rendering, never sent to clients.
#[derive(Clone, Eq, PartialEq, Debug)]
pub enum HandlerErrorKind {
    General(String),
    Internal(String),
}

/// The HTTP status every kind maps to. Both kinds deliberately share the
/// internal-server-error status: the numeric code, not the status, is the
/// external discriminator.
pub open spec fn spec_http_status(kind: HandlerErrorKind) -> u16 {
    match kind {
        HandlerErrorKind::General(_) => 500,
        HandlerErrorKind::Internal(_) => 500,
    }
}

/// The stable numeric code for each kind: the primary external
/// discriminator kept for legacy clients.
pub open spec fn spec_errno(kind: HandlerErrorKind) -> i32 {
    match kind {
        HandlerErrorKind::General(_) => 500,
        HandlerErrorKind::Internal(_) => 510,
    }
}

impl HandlerErrorKind {
    /// Return the response status to be rendered for an error.
    pub fn http_status(&self) -> (status: u16)
        ensures
            status == spec_http_status(*self),
    {
        match self {
            HandlerErrorKind::Internal(_) | HandlerErrorKind::General(_) => 500,
        }
    }

    /// Return the unique errno code.
    pub fn errno(&self) -> (code: i32)
        ensures
            code == spec_errno(*self),
    {
        match self {
            HandlerErrorKind::Internal(_) => 510,
            HandlerErrorKind::General(_) => 500,
        }
    }
}

/// The classification is total and deterministic: every kind has exactly
/// one (status, code) pair, equal kinds always classify alike, the status
/// is always the internal-server-error status, and the code is one of the
/// two stable legacy codes.
pub proof fn lemma_classify_total_deterministic(k1: HandlerErrorKind, k2: HandlerErrorKind)
    ensures
        spec_http_status(k1) == 500,
        spec_errno(k1) == 500 || spec_errno(k1) == 510,
        k1 == k2 ==> spec_http_status(k1) == spec_http_status(k2) && spec_errno(k1) == spec_errno(
            k2,
        ),
{
}

/// How each kind renders for internal logs: the kind's name and its
/// quoted message.
pub open spec fn spec_kind_display(kind: HandlerErrorKind) -> Seq<char> {
    match kind {
        HandlerErrorKind::General(m) => "General error: \""@ + m@ + "\""@,
        HandlerErrorKind::Internal(m) => "Internal error: \""@ + m@ + "\""@,
    }
}

impl HandlerErrorKind {
    /// Render the kind with its message, for internal logs only.
    pub fn display_string(&self) -> (r: String)
        ensures
            r@ == spec_kind_display(*self),
    {
        match self {
            HandlerErrorKind::General(m) => String::from_str("General error: \"").concat(
                m.as_str(),
            ).concat("\""),
            HandlerErrorKind::Internal(m) => String::from_str("Internal error: \"").concat(
                m.as_str(),
            ).concat("\""),
        }
    }
}

/// A rendered HTTP response: the status, an optional content type, and
/// the body. The surrounding framework turns this into its own response
/// value.
pub struct Response {
    pub status: u16,
    pub content_type: Option<String>,
    pub body: String,
}

/// An error classified at the point of failure: the kind, plus a
/// backtrace captured at construction time. Immutable once created.
#[derive(Debug)]
pub struct HandlerError {
    kind: HandlerErrorKind,
    trace: String,
}

/// A handler either succeeds or fails with a classified error.
pub type HandlerResult<T> = Result<T, HandlerError>;

/// Relies on `backtrace::Backtrace::new`: it captures the calling
/// thread's backtrace and never fails, though the rendering depends on
/// the machine and the moment, so nothing is promised of the text.
#[verifier::external_body]
fn capture_trace() -> String {
    format!("{:?}", backtrace::Backtrace::new())
}

/// Relies on `serde_json::to_string`: an `i32` serializes to its minimal
/// decimal representation, and writing to the in-memory buffer cannot
/// fail.
#[verifier::external_body]
fn json_encode_i32(v: i32) -> (r: String)
    ensures
        r@ == dec_rep_signed(v as int),
{
    serde_json::to_string(&v).unwrap_or_default()
}

/// What the internal log rendering of an error contains: the kind with
/// its message, then the captured backtrace. Neither kind wraps a
/// lower-level cause, so no "Caused by" line follows today; a kind that
/// gains one must extend this rendering with one line per cause.
pub open spec fn spec_display(kind: HandlerErrorKind, trace: Seq<char>) -> Seq<char> {
    "Error: "@ + spec_kind_display(kind) + "\nBacktrace:\n"@ + trace
}

impl HandlerError {
    /// The kind this error was classified as.
    pub closed spec fn spec_kind(&self) -> HandlerErrorKind {
        self.kind
    }

    /// The backtrace rendering captured when the error was constructed.
    pub closed spec fn spec_trace(&self) -> Seq<char> {
        self.trace@
    }

    pub fn kind(&self) -> (kind: &HandlerErrorKind)
        ensures
            *kind == self.spec_kind(),
    {
        &self.kind
    }

    /// Classify an error kind, capturing a backtrace. Construction never
    /// fails.
    pub fn from_kind(kind: HandlerErrorKind) -> (r: Self)
        ensures
            r.spec_kind() == kind,
    {
        HandlerError { kind, trace: capture_trace() }
    }

    /// Shorthand for an internal error with the given message.
    pub fn internal(msg: &str) -> (r: Self)
        ensures
            r.spec_kind() matches HandlerErrorKind::Internal(m) && m@ == msg@,
    {
        Self::from_kind(HandlerErrorKind::Internal(msg.to_owned()))
    }

    pub fn status_code(&self) -> (status: u16)
        ensures
            status == spec_http_status(self.spec_kind()),
    {
        self.kind.http_status()
    }

    /// Translate the error into the backward-compatible response: the
    /// mapped status, and a body that is nothing but the JSON-encoded
    /// numeric code.
    pub fn error_response(&self) -> (r: Response)
        ensures
            r.status == spec_http_status(self.spec_kind()),
            r.body@ == dec_rep_signed(spec_errno(self.spec_kind()) as int),
            r.content_type matches Some(ct) && ct@ == "application/json"@,
    {
        Response {
            status: self.status_code(),
            content_type: Some(String::from_str("application/json")),
            body: json_encode_i32(self.kind.errno()),
        }
    }

    /// The fixed not-found response that overrides the framework's
    /// default page: status 404, empty body.
    pub fn render_404() -> (r: Response)
        ensures
            r.status == 404,
            r.body@.len() == 0,
            r.content_type is None,
    {
        Response { status: 404, content_type: None, body: String::new() }
    }

    /// A copy carrying the same kind and the same captured backtrace.
    pub fn duplicate(&self) -> (r: Self)
        ensures
            r.spec_kind() == self.spec_kind(),
            r.spec_trace() == self.spec_trace(),
    {
        let kind = match &self.kind {
            HandlerErrorKind::General(m) => HandlerErrorKind::General(m.clone()),
            HandlerErrorKind::Internal(m) => HandlerErrorKind::Internal(m.clone()),
        };
        HandlerError { kind, trace: self.trace.clone() }
    }

    /// Render the error for internal logs: the kind, the backtrace, and
    /// a "Caused by" line for every wrapped lower-level cause (of which
    /// the current kinds have none). Never sent to clients.
    pub fn display_string(&self) -> (r: String)
        ensures
            r@ == spec_display(self.spec_kind(), self.spec_trace()),
    {
        String::from_str("Error: ").concat(self.kind.display_string().as_str()).concat(
            "\nBacktrace:\n",
        ).concat(self.trace.as_str())
    }
}

} // verus!

