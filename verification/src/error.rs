//! The error set of the library's HTTP-parsing surface, and conversions into
//! it from the outside parsers it sits on.

use vstd::prelude::*;

verus! {

/// Result type often returned from methods that can have [`HttpError`]s.
pub type HttpResult<T> = Result<T, HttpError>;

#[verifier::external_type_specification]
#[verifier::external_body]
pub struct ExUrlParseError(url::ParseError);

#[verifier::external_type_specification]
#[verifier::external_body]
pub struct ExIoError(std::io::Error);

#[verifier::external_type_specification]
pub struct ExHttparseError(httparse::Error);

/// A set of errors that can occur parsing HTTP streams.
#[derive(Debug)]
pub enum HttpError {
    /// An invalid `Method`, such as `GE,T`.
    HttpMethodError,
    /// An invalid `RequestUri`, such as `exam ple.domain`.
    HttpUriError(url::ParseError),
    /// An invalid `HttpVersion`, such as `HTP/1.1`
    HttpVersionError,
    /// An invalid `Header`.
    HttpHeaderError,
    /// A message head is too large to be reasonable.
    HttpTooLargeError,
    /// An invalid `Status`, such as `1337 ELITE`.
    HttpStatusError,
    /// An `IoError` that occured while trying to read or write to a network stream.
    HttpIoError(std::io::Error),
    /// TCP FIN
    HttpClosed,
}

/// The description text of each [`HttpError`].
pub open spec fn description_of(e: HttpError) -> Seq<char> {
    match e {
        HttpError::HttpMethodError => "Invalid Method specified"@,
        HttpError::HttpUriError(_) => "Invalid Request URI specified"@,
        HttpError::HttpVersionError => "Invalid HTTP version specified"@,
        HttpError::HttpHeaderError => "Invalid Header provided"@,
        HttpError::HttpTooLargeError => "Message head is too large"@,
        HttpError::HttpStatusError => "Invalid Status provided"@,
        HttpError::HttpIoError(_) => "An IoError occurred while connecting to the specified network"@,
        HttpError::HttpClosed => "TCP connection closed"@,
    }
}

impl HttpError {
    /// A short text describing the error, independent of its payload.
    pub fn description(&self) -> (r: &'static str)
        ensures
            r@ == description_of(*self),
    {
        match *self {
            HttpError::HttpMethodError => "Invalid Method specified",
            HttpError::HttpUriError(_) => "Invalid Request URI specified",
            HttpError::HttpVersionError => "Invalid HTTP version specified",
            HttpError::HttpHeaderError => "Invalid Header provided",
            HttpError::HttpTooLargeError => "Message head is too large",
            HttpError::HttpStatusError => "Invalid Status provided",
            HttpError::HttpIoError(_) => "An IoError occurred while connecting to the specified network",
            HttpError::HttpClosed => "TCP connection closed",
        }
    }
}

impl From<std::io::Error> for HttpError {
    fn from(err: std::io::Error) -> (r: HttpError) {
        HttpError::HttpIoError(err)
    }
}

impl vstd::std_specs::convert::FromSpecImpl<std::io::Error> for HttpError {
    open spec fn obeys_from_spec() -> bool {
        true
    }

    open spec fn from_spec(t: std::io::Error) -> Self {
        HttpError::HttpIoError(t)
    }
}

impl From<url::ParseError> for HttpError {
    fn from(err: url::ParseError) -> (r: HttpError) {
        HttpError::HttpUriError(err)
    }
}

impl vstd::std_specs::convert::FromSpecImpl<url::ParseError> for HttpError {
    open spec fn obeys_from_spec() -> bool {
        true
    }

    open spec fn from_spec(t: url::ParseError) -> Self {
        HttpError::HttpUriError(t)
    }
}

/// The shape of a head-parser error, one case for each variant the outside
/// parser distinguishes.
#[derive(Clone, Copy, PartialEq, Eq, Structural, Debug)]
pub enum ParseErrorKind {
    HeaderName,
    HeaderValue,
    NewLine,
    Status,
    Token,
    TooManyHeaders,
    Version,
}

/// Which [`ParseErrorKind`] a given head-parser error carries; a function of
/// the error value alone.
pub uninterp spec fn httparse_kind_of(e: httparse::Error) -> ParseErrorKind;

/// Relies on matching `httparse::Error`'s seven unit variants, one arm each,
/// to their mirror in [`ParseErrorKind`].
#[verifier::external_body]
fn classify_httparse(e: httparse::Error) -> (r: ParseErrorKind)
    ensures
        r == httparse_kind_of(e),
{
    match e {
        httparse::Error::HeaderName => ParseErrorKind::HeaderName,
        httparse::Error::HeaderValue => ParseErrorKind::HeaderValue,
        httparse::Error::NewLine => ParseErrorKind::NewLine,
        httparse::Error::Status => ParseErrorKind::Status,
        httparse::Error::Token => ParseErrorKind::Token,
        httparse::Error::TooManyHeaders => ParseErrorKind::TooManyHeaders,
        httparse::Error::Version => ParseErrorKind::Version,
    }
}

/// How each head-parser error surfaces as an [`HttpError`].
pub open spec fn http_error_of_parse(k: ParseErrorKind) -> HttpError {
    match k {
        ParseErrorKind::HeaderName => HttpError::HttpHeaderError,
        ParseErrorKind::HeaderValue => HttpError::HttpHeaderError,
        ParseErrorKind::NewLine => HttpError::HttpHeaderError,
        ParseErrorKind::Status => HttpError::HttpStatusError,
        ParseErrorKind::Token => HttpError::HttpHeaderError,
        ParseErrorKind::TooManyHeaders => HttpError::HttpTooLargeError,
        ParseErrorKind::Version => HttpError::HttpVersionError,
    }
}

impl From<ParseErrorKind> for HttpError {
    fn from(k: ParseErrorKind) -> (r: HttpError) {
        match k {
            ParseErrorKind::HeaderName => HttpError::HttpHeaderError,
            ParseErrorKind::HeaderValue => HttpError::HttpHeaderError,
            ParseErrorKind::NewLine => HttpError::HttpHeaderError,
            ParseErrorKind::Status => HttpError::HttpStatusError,
            ParseErrorKind::Token => HttpError::HttpHeaderError,
            ParseErrorKind::TooManyHeaders => HttpError::HttpTooLargeError,
            ParseErrorKind::Version => HttpError::HttpVersionError,
        }
    }
}

impl vstd::std_specs::convert::FromSpecImpl<ParseErrorKind> for HttpError {
    open spec fn obeys_from_spec() -> bool {
        true
    }

    open spec fn from_spec(k: ParseErrorKind) -> Self {
        http_error_of_parse(k)
    }
}

impl From<httparse::Error> for HttpError {
    fn from(err: httparse::Error) -> (r: HttpError) {
        let k = classify_httparse(err);
        match k {
            ParseErrorKind::HeaderName => HttpError::HttpHeaderError,
            ParseErrorKind::HeaderValue => HttpError::HttpHeaderError,
            ParseErrorKind::NewLine => HttpError::HttpHeaderError,
            ParseErrorKind::Status => HttpError::HttpStatusError,
            ParseErrorKind::Token => HttpError::HttpHeaderError,
            ParseErrorKind::TooManyHeaders => HttpError::HttpTooLargeError,
            ParseErrorKind::Version => HttpError::HttpVersionError,
        }
    }
}

impl vstd::std_specs::convert::FromSpecImpl<httparse::Error> for HttpError {
    open spec fn obeys_from_spec() -> bool {
        true
    }

    open spec fn from_spec(e: httparse::Error) -> Self {
        http_error_of_parse(httparse_kind_of(e))
    }
}

} // verus!
