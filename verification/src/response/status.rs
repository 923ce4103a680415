//! The response status line: the known status codes and their
//! reason phrases.
use vstd::prelude::*;

verus! {

/// The status codes the library knows by name, plus an open variant
/// carrying a code and a reason phrase of its own.
#[derive(Debug, PartialEq, Eq, Hash)]
#[allow(missing_docs)]
pub enum Status {
    Continue,
    SwitchingProtocol,
    Processing,
    EarlyHints,
    Checkpoint,
    OK,
    Created,
    Accepted,
    NonAuthoritativeInformation,
    NoContent,
    ResetContent,
    PartialContent,
    MultiStatus,
    AlreadyReported,
    IMUsed,
    MultipleChoice,
    MovedPermanently,
    Found,
    SeeOther,
    NotModified,
    UseProxy,
    Unused,
    TemporaryRedirect,
    PermanentRedirect,
    BadRequest,
    Unauthorized,
    PaymentRequired,
    Forbidden,
    NotFound,
    MethodNotAllowed,
    NotAcceptable,
    ProxyAuthenticationRequired,
    RequestTimeout,
    Conflict,
    Gone,
    LengthRequired,
    PreconditionFailed,
    PayloadTooLarge,
    URITooLong,
    UnsupportedMediaType,
    RequestedRangeNotSatisfiable,
    ExpectationFailed,
    ImATeapot,
    MisdirectedRequest,
    UnprocessableEntity,
    Locked,
    FailedDependency,
    TooEarly,
    UpgradeRequired,
    PreconditionRequired,
    TooManyRequests,
    RequestHeaderFieldsTooLarge,
    UnavailableForLegalReasons,
    InternalServerError,
    NotImplemented,
    BadGateway,
    ServiceUnavailable,
    GatewayTimeout,
    HttpVersionNotSupported,
    VariantAlsoNegotiates,
    InsufficientStorage,
    LoopDetected,
    BandwidthLimitExceeded,
    NotExtended,
    NetworkAuthenticationRequired,
    NotUpdated,
    VersionMismatch,
    Other(u16, String),
}

/// The abstract value of a `Status`.
#[allow(missing_docs)]
pub enum StatusV {
    Continue,
    SwitchingProtocol,
    Processing,
    EarlyHints,
    Checkpoint,
    OK,
    Created,
    Accepted,
    NonAuthoritativeInformation,
    NoContent,
    ResetContent,
    PartialContent,
    MultiStatus,
    AlreadyReported,
    IMUsed,
    MultipleChoice,
    MovedPermanently,
    Found,
    SeeOther,
    NotModified,
    UseProxy,
    Unused,
    TemporaryRedirect,
    PermanentRedirect,
    BadRequest,
    Unauthorized,
    PaymentRequired,
    Forbidden,
    NotFound,
    MethodNotAllowed,
    NotAcceptable,
    ProxyAuthenticationRequired,
    RequestTimeout,
    Conflict,
    Gone,
    LengthRequired,
    PreconditionFailed,
    PayloadTooLarge,
    URITooLong,
    UnsupportedMediaType,
    RequestedRangeNotSatisfiable,
    ExpectationFailed,
    ImATeapot,
    MisdirectedRequest,
    UnprocessableEntity,
    Locked,
    FailedDependency,
    TooEarly,
    UpgradeRequired,
    PreconditionRequired,
    TooManyRequests,
    RequestHeaderFieldsTooLarge,
    UnavailableForLegalReasons,
    InternalServerError,
    NotImplemented,
    BadGateway,
    ServiceUnavailable,
    GatewayTimeout,
    HttpVersionNotSupported,
    VariantAlsoNegotiates,
    InsufficientStorage,
    LoopDetected,
    BandwidthLimitExceeded,
    NotExtended,
    NetworkAuthenticationRequired,
    NotUpdated,
    VersionMismatch,
    Other(u16, Seq<char>),
}

impl View for Status {
    type V = StatusV;

    open spec fn view(&self) -> StatusV {
        match self {
            Status::Continue => StatusV::Continue,
            Status::SwitchingProtocol => StatusV::SwitchingProtocol,
            Status::Processing => StatusV::Processing,
            Status::EarlyHints => StatusV::EarlyHints,
            Status::Checkpoint => StatusV::Checkpoint,
            Status::OK => StatusV::OK,
            Status::Created => StatusV::Created,
            Status::Accepted => StatusV::Accepted,
            Status::NonAuthoritativeInformation => StatusV::NonAuthoritativeInformation,
            Status::NoContent => StatusV::NoContent,
            Status::ResetContent => StatusV::ResetContent,
            Status::PartialContent => StatusV::PartialContent,
            Status::MultiStatus => StatusV::MultiStatus,
            Status::AlreadyReported => StatusV::AlreadyReported,
            Status::IMUsed => StatusV::IMUsed,
            Status::MultipleChoice => StatusV::MultipleChoice,
            Status::MovedPermanently => StatusV::MovedPermanently,
            Status::Found => StatusV::Found,
            Status::SeeOther => StatusV::SeeOther,
            Status::NotModified => StatusV::NotModified,
            Status::UseProxy => StatusV::UseProxy,
            Status::Unused => StatusV::Unused,
            Status::TemporaryRedirect => StatusV::TemporaryRedirect,
            Status::PermanentRedirect => StatusV::PermanentRedirect,
            Status::BadRequest => StatusV::BadRequest,
            Status::Unauthorized => StatusV::Unauthorized,
            Status::PaymentRequired => StatusV::PaymentRequired,
            Status::Forbidden => StatusV::Forbidden,
            Status::NotFound => StatusV::NotFound,
            Status::MethodNotAllowed => StatusV::MethodNotAllowed,
            Status::NotAcceptable => StatusV::NotAcceptable,
            Status::ProxyAuthenticationRequired => StatusV::ProxyAuthenticationRequired,
            Status::RequestTimeout => StatusV::RequestTimeout,
            Status::Conflict => StatusV::Conflict,
            Status::Gone => StatusV::Gone,
            Status::LengthRequired => StatusV::LengthRequired,
            Status::PreconditionFailed => StatusV::PreconditionFailed,
            Status::PayloadTooLarge => StatusV::PayloadTooLarge,
            Status::URITooLong => StatusV::URITooLong,
            Status::UnsupportedMediaType => StatusV::UnsupportedMediaType,
            Status::RequestedRangeNotSatisfiable => StatusV::RequestedRangeNotSatisfiable,
            Status::ExpectationFailed => StatusV::ExpectationFailed,
            Status::ImATeapot => StatusV::ImATeapot,
            Status::MisdirectedRequest => StatusV::MisdirectedRequest,
            Status::UnprocessableEntity => StatusV::UnprocessableEntity,
            Status::Locked => StatusV::Locked,
            Status::FailedDependency => StatusV::FailedDependency,
            Status::TooEarly => StatusV::TooEarly,
            Status::UpgradeRequired => StatusV::UpgradeRequired,
            Status::PreconditionRequired => StatusV::PreconditionRequired,
            Status::TooManyRequests => StatusV::TooManyRequests,
            Status::RequestHeaderFieldsTooLarge => StatusV::RequestHeaderFieldsTooLarge,
            Status::UnavailableForLegalReasons => StatusV::UnavailableForLegalReasons,
            Status::InternalServerError => StatusV::InternalServerError,
            Status::NotImplemented => StatusV::NotImplemented,
            Status::BadGateway => StatusV::BadGateway,
            Status::ServiceUnavailable => StatusV::ServiceUnavailable,
            Status::GatewayTimeout => StatusV::GatewayTimeout,
            Status::HttpVersionNotSupported => StatusV::HttpVersionNotSupported,
            Status::VariantAlsoNegotiates => StatusV::VariantAlsoNegotiates,
            Status::InsufficientStorage => StatusV::InsufficientStorage,
            Status::LoopDetected => StatusV::LoopDetected,
            Status::BandwidthLimitExceeded => StatusV::BandwidthLimitExceeded,
            Status::NotExtended => StatusV::NotExtended,
            Status::NetworkAuthenticationRequired => StatusV::NetworkAuthenticationRequired,
            Status::NotUpdated => StatusV::NotUpdated,
            Status::VersionMismatch => StatusV::VersionMismatch,
            Status::Other(code, reason) => StatusV::Other(*code, reason@),
        }
    }
}

/// The text of the status line after the protocol token: the code
/// and its reason phrase.
pub open spec fn spec_status_text(s: StatusV) -> Seq<char> {
    match s {
        StatusV::Continue => "100 Continue"@,
        StatusV::SwitchingProtocol => "101 Switching Protocols"@,
        StatusV::Processing => "102 Processing"@,
        StatusV::EarlyHints => "103 EarlyHints"@,
        StatusV::Checkpoint => "103 Checkpoint"@,
        StatusV::OK => "200 OK"@,
        StatusV::Created => "201 Created"@,
        StatusV::Accepted => "202 Accepted"@,
        StatusV::NonAuthoritativeInformation => "203 Non-Authoritative Information"@,
        StatusV::NoContent => "204 No Content"@,
        StatusV::ResetContent => "205 Reset Content"@,
        StatusV::PartialContent => "206 Partial Content"@,
        StatusV::MultiStatus => "207 Multi-Status"@,
        StatusV::AlreadyReported => "208 Already Reported"@,
        StatusV::IMUsed => "226 IM Used"@,
        StatusV::MultipleChoice => "300 Multiple Choices"@,
        StatusV::MovedPermanently => "301 Moved Permanently"@,
        StatusV::Found => "302 Found"@,
        StatusV::SeeOther => "303 See Other"@,
        StatusV::NotModified => "304 Not Modified"@,
        StatusV::UseProxy => "305 Use Proxy"@,
        StatusV::Unused => "306 Unused"@,
        StatusV::TemporaryRedirect => "307 Temporary Redirect"@,
        StatusV::PermanentRedirect => "308 Permanent Redirect"@,
        StatusV::BadRequest => "400 Bad Request"@,
        StatusV::Unauthorized => "401 Unauthorized"@,
        StatusV::PaymentRequired => "402 Payment Required"@,
        StatusV::Forbidden => "403 Forbidden"@,
        StatusV::NotFound => "404 Not Found"@,
        StatusV::MethodNotAllowed => "405 Method Not Allowed"@,
        StatusV::NotAcceptable => "406 Not Acceptable"@,
        StatusV::ProxyAuthenticationRequired => "407 Proxy Authentication Required"@,
        StatusV::RequestTimeout => "408 Request Timeout"@,
        StatusV::Conflict => "409 Conflict"@,
        StatusV::Gone => "410 Gone"@,
        StatusV::LengthRequired => "411 Length Required"@,
        StatusV::PreconditionFailed => "412 Precondition Failed"@,
        StatusV::PayloadTooLarge => "413 Payload/Content Too Large"@,
        StatusV::URITooLong => "414 URI Too Long"@,
        StatusV::UnsupportedMediaType => "415 Unsupported Media Type"@,
        StatusV::RequestedRangeNotSatisfiable => "416 Requested Range Not Satisfiable"@,
        StatusV::ExpectationFailed => "417 Expectation Failed"@,
        StatusV::ImATeapot => "418 I'm A Teapot"@,
        StatusV::MisdirectedRequest => "421 Misdirected Request"@,
        StatusV::UnprocessableEntity => "422 Unprocessable Entity"@,
        StatusV::Locked => "423 Locked"@,
        StatusV::FailedDependency => "424 Failed Dependency"@,
        StatusV::TooEarly => "425 Too Early"@,
        StatusV::UpgradeRequired => "426 Upgrade Required"@,
        StatusV::PreconditionRequired => "428 Precondition Required"@,
        StatusV::TooManyRequests => "429 Too Many Requests"@,
        StatusV::RequestHeaderFieldsTooLarge => "431 Request Header Fields Too Large"@,
        StatusV::UnavailableForLegalReasons => "451 Unavailable For Legal Reasons"@,
        StatusV::InternalServerError => "500 Internal Server Error"@,
        StatusV::NotImplemented => "501 Not Implemented"@,
        StatusV::BadGateway => "502 Bad Gateway"@,
        StatusV::ServiceUnavailable => "503 Service Unavailable"@,
        StatusV::GatewayTimeout => "504 Gateway Timeout"@,
        StatusV::HttpVersionNotSupported => "505 HTTP Version Not Supported"@,
        StatusV::VariantAlsoNegotiates => "506 Variant Also Negotiates"@,
        StatusV::InsufficientStorage => "507 Insufficient Storage"@,
        StatusV::LoopDetected => "508 Loop Detected"@,
        StatusV::BandwidthLimitExceeded => "509 Bandwidth Limit Exceeded"@,
        StatusV::NotExtended => "510 Not Extended"@,
        StatusV::NetworkAuthenticationRequired => "511 Network Authentication Required"@,
        StatusV::NotUpdated => "512 Not Updated"@,
        StatusV::VersionMismatch => "513 Version Mismatch"@,
        StatusV::Other(code, reason) => crate::strutil::spec_dec_digits(code as int) + seq![' '] + reason,
    }
}

impl Status {
    /// The status a numeric code denotes; a code outside the mapped
    /// set lands in `Other` with the reason "Unknown".
    pub fn try_from(status_code: u16) -> (r: Result<Status, &'static str>)
        ensures
            r matches Ok(s) && s@ == spec_status_of(status_code),
    {
        match status_code {
            200 => Ok(Status::OK),
            201 => Ok(Status::Created),
            202 => Ok(Status::Accepted),
            301 => Ok(Status::MovedPermanently),
            302 => Ok(Status::Found),
            303 => Ok(Status::SeeOther),
            304 => Ok(Status::NotModified),
            400 => Ok(Status::BadRequest),
            401 => Ok(Status::Unauthorized),
            403 => Ok(Status::Forbidden),
            404 => Ok(Status::NotFound),
            405 => Ok(Status::MethodNotAllowed),
            500 => Ok(Status::InternalServerError),
            501 => Ok(Status::NotImplemented),
            502 => Ok(Status::BadGateway),
            503 => Ok(Status::ServiceUnavailable),
            505 => Ok(Status::HttpVersionNotSupported),
            val => Ok(Status::Other(val, "Unknown".to_owned())),
        }
    }

    /// The status-line text of this status.
    pub fn status_text(&self) -> (r: String)
        ensures
            r@ == spec_status_text(self@),
    {
        match self {
            Status::Continue => String::from_str("100 Continue"),
            Status::SwitchingProtocol => String::from_str("101 Switching Protocols"),
            Status::Processing => String::from_str("102 Processing"),
            Status::EarlyHints => String::from_str("103 EarlyHints"),
            Status::Checkpoint => String::from_str("103 Checkpoint"),
            Status::OK => String::from_str("200 OK"),
            Status::Created => String::from_str("201 Created"),
            Status::Accepted => String::from_str("202 Accepted"),
            Status::NonAuthoritativeInformation => String::from_str("203 Non-Authoritative Information"),
            Status::NoContent => String::from_str("204 No Content"),
            Status::ResetContent => String::from_str("205 Reset Content"),
            Status::PartialContent => String::from_str("206 Partial Content"),
            Status::MultiStatus => String::from_str("207 Multi-Status"),
            Status::AlreadyReported => String::from_str("208 Already Reported"),
            Status::IMUsed => String::from_str("226 IM Used"),
            Status::MultipleChoice => String::from_str("300 Multiple Choices"),
            Status::MovedPermanently => String::from_str("301 Moved Permanently"),
            Status::Found => String::from_str("302 Found"),
            Status::SeeOther => String::from_str("303 See Other"),
            Status::NotModified => String::from_str("304 Not Modified"),
            Status::UseProxy => String::from_str("305 Use Proxy"),
            Status::Unused => String::from_str("306 Unused"),
            Status::TemporaryRedirect => String::from_str("307 Temporary Redirect"),
            Status::PermanentRedirect => String::from_str("308 Permanent Redirect"),
            Status::BadRequest => String::from_str("400 Bad Request"),
            Status::Unauthorized => String::from_str("401 Unauthorized"),
            Status::PaymentRequired => String::from_str("402 Payment Required"),
            Status::Forbidden => String::from_str("403 Forbidden"),
            Status::NotFound => String::from_str("404 Not Found"),
            Status::MethodNotAllowed => String::from_str("405 Method Not Allowed"),
            Status::NotAcceptable => String::from_str("406 Not Acceptable"),
            Status::ProxyAuthenticationRequired => String::from_str("407 Proxy Authentication Required"),
            Status::RequestTimeout => String::from_str("408 Request Timeout"),
            Status::Conflict => String::from_str("409 Conflict"),
            Status::Gone => String::from_str("410 Gone"),
            Status::LengthRequired => String::from_str("411 Length Required"),
            Status::PreconditionFailed => String::from_str("412 Precondition Failed"),
            Status::PayloadTooLarge => String::from_str("413 Payload/Content Too Large"),
            Status::URITooLong => String::from_str("414 URI Too Long"),
            Status::UnsupportedMediaType => String::from_str("415 Unsupported Media Type"),
            Status::RequestedRangeNotSatisfiable => String::from_str("416 Requested Range Not Satisfiable"),
            Status::ExpectationFailed => String::from_str("417 Expectation Failed"),
            Status::ImATeapot => String::from_str("418 I'm A Teapot"),
            Status::MisdirectedRequest => String::from_str("421 Misdirected Request"),
            Status::UnprocessableEntity => String::from_str("422 Unprocessable Entity"),
            Status::Locked => String::from_str("423 Locked"),
            Status::FailedDependency => String::from_str("424 Failed Dependency"),
            Status::TooEarly => String::from_str("425 Too Early"),
            Status::UpgradeRequired => String::from_str("426 Upgrade Required"),
            Status::PreconditionRequired => String::from_str("428 Precondition Required"),
            Status::TooManyRequests => String::from_str("429 Too Many Requests"),
            Status::RequestHeaderFieldsTooLarge => String::from_str("431 Request Header Fields Too Large"),
            Status::UnavailableForLegalReasons => String::from_str("451 Unavailable For Legal Reasons"),
            Status::InternalServerError => String::from_str("500 Internal Server Error"),
            Status::NotImplemented => String::from_str("501 Not Implemented"),
            Status::BadGateway => String::from_str("502 Bad Gateway"),
            Status::ServiceUnavailable => String::from_str("503 Service Unavailable"),
            Status::GatewayTimeout => String::from_str("504 Gateway Timeout"),
            Status::HttpVersionNotSupported => String::from_str("505 HTTP Version Not Supported"),
            Status::VariantAlsoNegotiates => String::from_str("506 Variant Also Negotiates"),
            Status::InsufficientStorage => String::from_str("507 Insufficient Storage"),
            Status::LoopDetected => String::from_str("508 Loop Detected"),
            Status::BandwidthLimitExceeded => String::from_str("509 Bandwidth Limit Exceeded"),
            Status::NotExtended => String::from_str("510 Not Extended"),
            Status::NetworkAuthenticationRequired => String::from_str("511 Network Authentication Required"),
            Status::NotUpdated => String::from_str("512 Not Updated"),
            Status::VersionMismatch => String::from_str("513 Version Mismatch"),
            Status::Other(code, reason) => {
                let mut s = crate::strutil::usize_to_string(*code as usize);
                s.push(' ');
                s.append(reason.as_str());
                proof {
                    assert(s@ =~= crate::strutil::spec_dec_digits(*code as int) + seq![' '] + reason@);
                }
                s
            },
        }
    }
}

/// The status a numeric code denotes.
pub open spec fn spec_status_of(code: u16) -> StatusV {
    if code == 200 {
        StatusV::OK
    } else if code == 201 {
        StatusV::Created
    } else if code == 202 {
        StatusV::Accepted
    } else if code == 301 {
        StatusV::MovedPermanently
    } else if code == 302 {
        StatusV::Found
    } else if code == 303 {
        StatusV::SeeOther
    } else if code == 304 {
        StatusV::NotModified
    } else if code == 400 {
        StatusV::BadRequest
    } else if code == 401 {
        StatusV::Unauthorized
    } else if code == 403 {
        StatusV::Forbidden
    } else if code == 404 {
        StatusV::NotFound
    } else if code == 405 {
        StatusV::MethodNotAllowed
    } else if code == 500 {
        StatusV::InternalServerError
    } else if code == 501 {
        StatusV::NotImplemented
    } else if code == 502 {
        StatusV::BadGateway
    } else if code == 503 {
        StatusV::ServiceUnavailable
    } else if code == 505 {
        StatusV::HttpVersionNotSupported
    } else {
        StatusV::Other(code, "Unknown"@)
    }
}

impl Clone for Status {
    fn clone(&self) -> (r: Self)
        ensures
            r@ == self@,
    {
        match self {
            Status::Continue => Status::Continue,
            Status::SwitchingProtocol => Status::SwitchingProtocol,
            Status::Processing => Status::Processing,
            Status::EarlyHints => Status::EarlyHints,
            Status::Checkpoint => Status::Checkpoint,
            Status::OK => Status::OK,
            Status::Created => Status::Created,
            Status::Accepted => Status::Accepted,
            Status::NonAuthoritativeInformation => Status::NonAuthoritativeInformation,
            Status::NoContent => Status::NoContent,
            Status::ResetContent => Status::ResetContent,
            Status::PartialContent => Status::PartialContent,
            Status::MultiStatus => Status::MultiStatus,
            Status::AlreadyReported => Status::AlreadyReported,
            Status::IMUsed => Status::IMUsed,
            Status::MultipleChoice => Status::MultipleChoice,
            Status::MovedPermanently => Status::MovedPermanently,
            Status::Found => Status::Found,
            Status::SeeOther => Status::SeeOther,
            Status::NotModified => Status::NotModified,
            Status::UseProxy => Status::UseProxy,
            Status::Unused => Status::Unused,
            Status::TemporaryRedirect => Status::TemporaryRedirect,
            Status::PermanentRedirect => Status::PermanentRedirect,
            Status::BadRequest => Status::BadRequest,
            Status::Unauthorized => Status::Unauthorized,
            Status::PaymentRequired => Status::PaymentRequired,
            Status::Forbidden => Status::Forbidden,
            Status::NotFound => Status::NotFound,
            Status::MethodNotAllowed => Status::MethodNotAllowed,
            Status::NotAcceptable => Status::NotAcceptable,
            Status::ProxyAuthenticationRequired => Status::ProxyAuthenticationRequired,
            Status::RequestTimeout => Status::RequestTimeout,
            Status::Conflict => Status::Conflict,
            Status::Gone => Status::Gone,
            Status::LengthRequired => Status::LengthRequired,
            Status::PreconditionFailed => Status::PreconditionFailed,
            Status::PayloadTooLarge => Status::PayloadTooLarge,
            Status::URITooLong => Status::URITooLong,
            Status::UnsupportedMediaType => Status::UnsupportedMediaType,
            Status::RequestedRangeNotSatisfiable => Status::RequestedRangeNotSatisfiable,
            Status::ExpectationFailed => Status::ExpectationFailed,
            Status::ImATeapot => Status::ImATeapot,
            Status::MisdirectedRequest => Status::MisdirectedRequest,
            Status::UnprocessableEntity => Status::UnprocessableEntity,
            Status::Locked => Status::Locked,
            Status::FailedDependency => Status::FailedDependency,
            Status::TooEarly => Status::TooEarly,
            Status::UpgradeRequired => Status::UpgradeRequired,
            Status::PreconditionRequired => Status::PreconditionRequired,
            Status::TooManyRequests => Status::TooManyRequests,
            Status::RequestHeaderFieldsTooLarge => Status::RequestHeaderFieldsTooLarge,
            Status::UnavailableForLegalReasons => Status::UnavailableForLegalReasons,
            Status::InternalServerError => Status::InternalServerError,
            Status::NotImplemented => Status::NotImplemented,
            Status::BadGateway => Status::BadGateway,
            Status::ServiceUnavailable => Status::ServiceUnavailable,
            Status::GatewayTimeout => Status::GatewayTimeout,
            Status::HttpVersionNotSupported => Status::HttpVersionNotSupported,
            Status::VariantAlsoNegotiates => Status::VariantAlsoNegotiates,
            Status::InsufficientStorage => Status::InsufficientStorage,
            Status::LoopDetected => Status::LoopDetected,
            Status::BandwidthLimitExceeded => Status::BandwidthLimitExceeded,
            Status::NotExtended => Status::NotExtended,
            Status::NetworkAuthenticationRequired => Status::NetworkAuthenticationRequired,
            Status::NotUpdated => Status::NotUpdated,
            Status::VersionMismatch => Status::VersionMismatch,
            Status::Other(code, reason) => Status::Other(*code, reason.clone()),
        }
    }
}

} // verus!
