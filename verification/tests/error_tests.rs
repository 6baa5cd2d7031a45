use httpcore::error::{HttpError, ParseErrorKind};

#[test]
fn descriptions_name_each_error() {
    assert_eq!(
        HttpError::HttpMethodError.description(),
        "Invalid Method specified"
    );
    assert_eq!(
        HttpError::HttpHeaderError.description(),
        "Invalid Header provided"
    );
    assert_eq!(
        HttpError::HttpVersionError.description(),
        "Invalid HTTP version specified"
    );
    assert_eq!(
        HttpError::HttpTooLargeError.description(),
        "Message head is too large"
    );
    assert_eq!(
        HttpError::HttpStatusError.description(),
        "Invalid Status provided"
    );
    assert_eq!(HttpError::HttpClosed.description(), "TCP connection closed");
}

#[test]
fn io_errors_convert() {
    let io = std::io::Error::new(std::io::ErrorKind::Other, "boom");
    let e = HttpError::from(io);
    assert!(matches!(e, HttpError::HttpIoError(_)));
    assert_eq!(
        e.description(),
        "An IoError occurred while connecting to the specified network"
    );
}

#[test]
fn url_errors_convert() {
    let bad = url::Url::parse("http://[").unwrap_err();
    let e = HttpError::from(bad);
    assert!(matches!(e, HttpError::HttpUriError(_)));
    assert_eq!(e.description(), "Invalid Request URI specified");
}

#[test]
fn httparse_errors_convert_by_kind() {
    assert!(matches!(
        HttpError::from(httparse::Error::HeaderName),
        HttpError::HttpHeaderError
    ));
    assert!(matches!(
        HttpError::from(httparse::Error::HeaderValue),
        HttpError::HttpHeaderError
    ));
    assert!(matches!(
        HttpError::from(httparse::Error::NewLine),
        HttpError::HttpHeaderError
    ));
    assert!(matches!(
        HttpError::from(httparse::Error::Status),
        HttpError::HttpStatusError
    ));
    assert!(matches!(
        HttpError::from(httparse::Error::Token),
        HttpError::HttpHeaderError
    ));
    assert!(matches!(
        HttpError::from(httparse::Error::TooManyHeaders),
        HttpError::HttpTooLargeError
    ));
    assert!(matches!(
        HttpError::from(httparse::Error::Version),
        HttpError::HttpVersionError
    ));
}

#[test]
fn parse_error_kinds_convert() {
    assert!(matches!(
        HttpError::from(ParseErrorKind::TooManyHeaders),
        HttpError::HttpTooLargeError
    ));
    assert!(matches!(
        HttpError::from(ParseErrorKind::Version),
        HttpError::HttpVersionError
    ));
}
