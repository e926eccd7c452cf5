//! The response status line: the closed set of standard status codes,
//! their numeric codes, and their human reason phrases.

use vstd::prelude::*;
use vstd::string::StringExecFns;
use crate::strutil::{dec_rep, push_char, spread_camel, u64_to_dec};

verus! {

/// Relies on `regex::Regex::new` and `Regex::replace_all`: the fixed
/// pattern `([a-z])([A-Z])` with replacement `$1 $2` puts one space
/// between each ASCII lower-case letter and the upper-case letter that
/// follows it. Matches cannot overlap: a match ends on an upper-case
/// letter and the next match must start on a lower-case one. The fixed
/// pattern is valid, so `new` cannot fail.
#[verifier::external_body]
fn unpascal_case(s: &str) -> (r: String)
    ensures
        r@ == spread_camel(s@),
{
    let re = regex::Regex::new("([a-z])([A-Z])").expect("The regex should compile");
    re.replace_all(s, "$1 $2").into_owned()
}

/// The standard HTTP status codes, plus an escape for non-standard ones
/// that carries its own code and phrase.
#[derive(Debug, Clone, PartialEq, Eq)]
pub enum ResponseStatus {
    Continue,
    SwitchingProtocols,
    Processing,
    EarlyHints,
    OK,
    Created,
    Accepted,
    NonAuthoritativeInformation,
    NoContent,
    ResetContent,
    PartialContent,
    MultiStatus,
    AlreadyReported,
    IMUsed,
    MultipleChoices,
    MovedPermanently,
    Found,
    SeeOther,
    NotModified,
    UseProxy,
    Unused,
    TemporaryRedirect,
    PermanentRedirect,
    BadRequest,
    Unauthorized,
    PaymentRequired,
    Forbidden,
    NotFound,
    MethodNotAllowed,
    NotAcceptable,
    ProxyAuthenticationRequired,
    RequestTimeout,
    Conflict,
    Gone,
    LengthRequired,
    PreconditionFailed,
    ContentTooLarge,
    URITooLong,
    UnsupportedMediaType,
    RangeNotSatisfiable,
    ExpectationFailed,
    Imateapot,
    MisdirectedRequest,
    UnprocessableContent,
    Locked,
    FailedDependency,
    TooEarly,
    UpgradeRequired,
    PreconditionRequired,
    TooManyRequests,
    RequestHeaderFieldsTooLarge,
    UnavailableForLegalReasons,
    InternalServerError,
    NotImplemented,
    BadGateway,
    ServiceUnavailable,
    GatewayTimeout,
    HTTPVersionNotSupported,
    VariantAlsoNegotiates,
    InsufficientStorage,
    LoopDetected,
    NotExtended,
    NetworkAuthenticationRequired,
    /// A non-standard status such as `521 Web Server Is Down`, with its
    /// own code and phrase.
    NonStandard(u16, String),
}

/// The numeric code of a status.
pub open spec fn code_spec(s: ResponseStatus) -> u16 {
    match s {
        ResponseStatus::Continue => 100,
        ResponseStatus::SwitchingProtocols => 101,
        ResponseStatus::Processing => 102,
        ResponseStatus::EarlyHints => 103,
        ResponseStatus::OK => 200,
        ResponseStatus::Created => 201,
        ResponseStatus::Accepted => 202,
        ResponseStatus::NonAuthoritativeInformation => 203,
        ResponseStatus::NoContent => 204,
        ResponseStatus::ResetContent => 205,
        ResponseStatus::PartialContent => 206,
        ResponseStatus::MultiStatus => 207,
        ResponseStatus::AlreadyReported => 208,
        ResponseStatus::IMUsed => 226,
        ResponseStatus::MultipleChoices => 300,
        ResponseStatus::MovedPermanently => 301,
        ResponseStatus::Found => 302,
        ResponseStatus::SeeOther => 303,
        ResponseStatus::NotModified => 304,
        ResponseStatus::UseProxy => 305,
        ResponseStatus::Unused => 306,
        ResponseStatus::TemporaryRedirect => 307,
        ResponseStatus::PermanentRedirect => 308,
        ResponseStatus::BadRequest => 400,
        ResponseStatus::Unauthorized => 401,
        ResponseStatus::PaymentRequired => 402,
        ResponseStatus::Forbidden => 403,
        ResponseStatus::NotFound => 404,
        ResponseStatus::MethodNotAllowed => 405,
        ResponseStatus::NotAcceptable => 406,
        ResponseStatus::ProxyAuthenticationRequired => 407,
        ResponseStatus::RequestTimeout => 408,
        ResponseStatus::Conflict => 409,
        ResponseStatus::Gone => 410,
        ResponseStatus::LengthRequired => 411,
        ResponseStatus::PreconditionFailed => 412,
        ResponseStatus::ContentTooLarge => 413,
        ResponseStatus::URITooLong => 414,
        ResponseStatus::UnsupportedMediaType => 415,
        ResponseStatus::RangeNotSatisfiable => 416,
        ResponseStatus::ExpectationFailed => 417,
        ResponseStatus::Imateapot => 418,
        ResponseStatus::MisdirectedRequest => 421,
        ResponseStatus::UnprocessableContent => 422,
        ResponseStatus::Locked => 423,
        ResponseStatus::FailedDependency => 424,
        ResponseStatus::TooEarly => 425,
        ResponseStatus::UpgradeRequired => 426,
        ResponseStatus::PreconditionRequired => 428,
        ResponseStatus::TooManyRequests => 429,
        ResponseStatus::RequestHeaderFieldsTooLarge => 431,
        ResponseStatus::UnavailableForLegalReasons => 451,
        ResponseStatus::InternalServerError => 500,
        ResponseStatus::NotImplemented => 501,
        ResponseStatus::BadGateway => 502,
        ResponseStatus::ServiceUnavailable => 503,
        ResponseStatus::GatewayTimeout => 504,
        ResponseStatus::HTTPVersionNotSupported => 505,
        ResponseStatus::VariantAlsoNegotiates => 506,
        ResponseStatus::InsufficientStorage => 507,
        ResponseStatus::LoopDetected => 508,
        ResponseStatus::NotExtended => 510,
        ResponseStatus::NetworkAuthenticationRequired => 511,
        ResponseStatus::NonStandard(code, _) => code,
    }
}

/// The PascalCase name of a standard status, before spacing; the
/// non-standard escape has none and maps to its phrase directly.
pub open spec fn pascal_name(s: ResponseStatus) -> Seq<char> {
    match s {
        ResponseStatus::Continue => "Continue"@,
        ResponseStatus::SwitchingProtocols => "SwitchingProtocols"@,
        ResponseStatus::Processing => "Processing"@,
        ResponseStatus::EarlyHints => "EarlyHints"@,
        ResponseStatus::OK => "OK"@,
        ResponseStatus::Created => "Created"@,
        ResponseStatus::Accepted => "Accepted"@,
        ResponseStatus::NonAuthoritativeInformation => "NonAuthoritativeInformation"@,
        ResponseStatus::NoContent => "NoContent"@,
        ResponseStatus::ResetContent => "ResetContent"@,
        ResponseStatus::PartialContent => "PartialContent"@,
        ResponseStatus::MultiStatus => "MultiStatus"@,
        ResponseStatus::AlreadyReported => "AlreadyReported"@,
        ResponseStatus::IMUsed => "IMUsed"@,
        ResponseStatus::MultipleChoices => "MultipleChoices"@,
        ResponseStatus::MovedPermanently => "MovedPermanently"@,
        ResponseStatus::Found => "Found"@,
        ResponseStatus::SeeOther => "SeeOther"@,
        ResponseStatus::NotModified => "NotModified"@,
        ResponseStatus::UseProxy => "UseProxy"@,
        ResponseStatus::Unused => "Unused"@,
        ResponseStatus::TemporaryRedirect => "TemporaryRedirect"@,
        ResponseStatus::PermanentRedirect => "PermanentRedirect"@,
        ResponseStatus::BadRequest => "BadRequest"@,
        ResponseStatus::Unauthorized => "Unauthorized"@,
        ResponseStatus::PaymentRequired => "PaymentRequired"@,
        ResponseStatus::Forbidden => "Forbidden"@,
        ResponseStatus::NotFound => "NotFound"@,
        ResponseStatus::MethodNotAllowed => "MethodNotAllowed"@,
        ResponseStatus::NotAcceptable => "NotAcceptable"@,
        ResponseStatus::ProxyAuthenticationRequired => "ProxyAuthenticationRequired"@,
        ResponseStatus::RequestTimeout => "RequestTimeout"@,
        ResponseStatus::Conflict => "Conflict"@,
        ResponseStatus::Gone => "Gone"@,
        ResponseStatus::LengthRequired => "LengthRequired"@,
        ResponseStatus::PreconditionFailed => "PreconditionFailed"@,
        ResponseStatus::ContentTooLarge => "ContentTooLarge"@,
        ResponseStatus::URITooLong => "URITooLong"@,
        ResponseStatus::UnsupportedMediaType => "UnsupportedMediaType"@,
        ResponseStatus::RangeNotSatisfiable => "RangeNotSatisfiable"@,
        ResponseStatus::ExpectationFailed => "ExpectationFailed"@,
        ResponseStatus::Imateapot => "Imateapot"@,
        ResponseStatus::MisdirectedRequest => "MisdirectedRequest"@,
        ResponseStatus::UnprocessableContent => "UnprocessableContent"@,
        ResponseStatus::Locked => "Locked"@,
        ResponseStatus::FailedDependency => "FailedDependency"@,
        ResponseStatus::TooEarly => "TooEarly"@,
        ResponseStatus::UpgradeRequired => "UpgradeRequired"@,
        ResponseStatus::PreconditionRequired => "PreconditionRequired"@,
        ResponseStatus::TooManyRequests => "TooManyRequests"@,
        ResponseStatus::RequestHeaderFieldsTooLarge => "RequestHeaderFieldsTooLarge"@,
        ResponseStatus::UnavailableForLegalReasons => "UnavailableForLegalReasons"@,
        ResponseStatus::InternalServerError => "InternalServerError"@,
        ResponseStatus::NotImplemented => "NotImplemented"@,
        ResponseStatus::BadGateway => "BadGateway"@,
        ResponseStatus::ServiceUnavailable => "ServiceUnavailable"@,
        ResponseStatus::GatewayTimeout => "GatewayTimeout"@,
        ResponseStatus::HTTPVersionNotSupported => "HTTPVersionNotSupported"@,
        ResponseStatus::VariantAlsoNegotiates => "VariantAlsoNegotiates"@,
        ResponseStatus::InsufficientStorage => "InsufficientStorage"@,
        ResponseStatus::LoopDetected => "LoopDetected"@,
        ResponseStatus::NotExtended => "NotExtended"@,
        ResponseStatus::NetworkAuthenticationRequired => "NetworkAuthenticationRequired"@,
        ResponseStatus::NonStandard(_, _) => Seq::empty(),
    }
}

impl ResponseStatus {
    /// The numeric code on the wire.
    pub fn to_code(&self) -> (r: u16)
        ensures
            r == code_spec(*self),
    {
        match self {
            ResponseStatus::Continue => 100,
            ResponseStatus::SwitchingProtocols => 101,
            ResponseStatus::Processing => 102,
            ResponseStatus::EarlyHints => 103,
            ResponseStatus::OK => 200,
            ResponseStatus::Created => 201,
            ResponseStatus::Accepted => 202,
            ResponseStatus::NonAuthoritativeInformation => 203,
            ResponseStatus::NoContent => 204,
            ResponseStatus::ResetContent => 205,
            ResponseStatus::PartialContent => 206,
            ResponseStatus::MultiStatus => 207,
            ResponseStatus::AlreadyReported => 208,
            ResponseStatus::IMUsed => 226,
            ResponseStatus::MultipleChoices => 300,
            ResponseStatus::MovedPermanently => 301,
            ResponseStatus::Found => 302,
            ResponseStatus::SeeOther => 303,
            ResponseStatus::NotModified => 304,
            ResponseStatus::UseProxy => 305,
            ResponseStatus::Unused => 306,
            ResponseStatus::TemporaryRedirect => 307,
            ResponseStatus::PermanentRedirect => 308,
            ResponseStatus::BadRequest => 400,
            ResponseStatus::Unauthorized => 401,
            ResponseStatus::PaymentRequired => 402,
            ResponseStatus::Forbidden => 403,
            ResponseStatus::NotFound => 404,
            ResponseStatus::MethodNotAllowed => 405,
            ResponseStatus::NotAcceptable => 406,
            ResponseStatus::ProxyAuthenticationRequired => 407,
            ResponseStatus::RequestTimeout => 408,
            ResponseStatus::Conflict => 409,
            ResponseStatus::Gone => 410,
            ResponseStatus::LengthRequired => 411,
            ResponseStatus::PreconditionFailed => 412,
            ResponseStatus::ContentTooLarge => 413,
            ResponseStatus::URITooLong => 414,
            ResponseStatus::UnsupportedMediaType => 415,
            ResponseStatus::RangeNotSatisfiable => 416,
            ResponseStatus::ExpectationFailed => 417,
            ResponseStatus::Imateapot => 418,
            ResponseStatus::MisdirectedRequest => 421,
            ResponseStatus::UnprocessableContent => 422,
            ResponseStatus::Locked => 423,
            ResponseStatus::FailedDependency => 424,
            ResponseStatus::TooEarly => 425,
            ResponseStatus::UpgradeRequired => 426,
            ResponseStatus::PreconditionRequired => 428,
            ResponseStatus::TooManyRequests => 429,
            ResponseStatus::RequestHeaderFieldsTooLarge => 431,
            ResponseStatus::UnavailableForLegalReasons => 451,
            ResponseStatus::InternalServerError => 500,
            ResponseStatus::NotImplemented => 501,
            ResponseStatus::BadGateway => 502,
            ResponseStatus::ServiceUnavailable => 503,
            ResponseStatus::GatewayTimeout => 504,
            ResponseStatus::HTTPVersionNotSupported => 505,
            ResponseStatus::VariantAlsoNegotiates => 506,
            ResponseStatus::InsufficientStorage => 507,
            ResponseStatus::LoopDetected => 508,
            ResponseStatus::NotExtended => 510,
            ResponseStatus::NetworkAuthenticationRequired => 511,
            ResponseStatus::NonStandard(code, _) => *code,
        }
    }

    /// True iff the code counts as a success: within the inclusive
    /// bounds `200 ..= 300`.
    pub fn is_ok(&self) -> (r: bool)
        ensures
            r == (200 <= code_spec(*self) <= 300),
    {
        let code = self.to_code();
        200 <= code && code <= 300
    }

    /// The PascalCase variant name, for the standard statuses.
    fn name(&self) -> (r: String)
        requires
            !(self is NonStandard),
        ensures
            r@ == pascal_name(*self),
    {
        match self {
            ResponseStatus::Continue => String::from_str("Continue"),
            ResponseStatus::SwitchingProtocols => String::from_str("SwitchingProtocols"),
            ResponseStatus::Processing => String::from_str("Processing"),
            ResponseStatus::EarlyHints => String::from_str("EarlyHints"),
            ResponseStatus::OK => String::from_str("OK"),
            ResponseStatus::Created => String::from_str("Created"),
            ResponseStatus::Accepted => String::from_str("Accepted"),
            ResponseStatus::NonAuthoritativeInformation => String::from_str("NonAuthoritativeInformation"),
            ResponseStatus::NoContent => String::from_str("NoContent"),
            ResponseStatus::ResetContent => String::from_str("ResetContent"),
            ResponseStatus::PartialContent => String::from_str("PartialContent"),
            ResponseStatus::MultiStatus => String::from_str("MultiStatus"),
            ResponseStatus::AlreadyReported => String::from_str("AlreadyReported"),
            ResponseStatus::IMUsed => String::from_str("IMUsed"),
            ResponseStatus::MultipleChoices => String::from_str("MultipleChoices"),
            ResponseStatus::MovedPermanently => String::from_str("MovedPermanently"),
            ResponseStatus::Found => String::from_str("Found"),
            ResponseStatus::SeeOther => String::from_str("SeeOther"),
            ResponseStatus::NotModified => String::from_str("NotModified"),
            ResponseStatus::UseProxy => String::from_str("UseProxy"),
            ResponseStatus::Unused => String::from_str("Unused"),
            ResponseStatus::TemporaryRedirect => String::from_str("TemporaryRedirect"),
            ResponseStatus::PermanentRedirect => String::from_str("PermanentRedirect"),
            ResponseStatus::BadRequest => String::from_str("BadRequest"),
            ResponseStatus::Unauthorized => String::from_str("Unauthorized"),
            ResponseStatus::PaymentRequired => String::from_str("PaymentRequired"),
            ResponseStatus::Forbidden => String::from_str("Forbidden"),
            ResponseStatus::NotFound => String::from_str("NotFound"),
            ResponseStatus::MethodNotAllowed => String::from_str("MethodNotAllowed"),
            ResponseStatus::NotAcceptable => String::from_str("NotAcceptable"),
            ResponseStatus::ProxyAuthenticationRequired => String::from_str("ProxyAuthenticationRequired"),
            ResponseStatus::RequestTimeout => String::from_str("RequestTimeout"),
            ResponseStatus::Conflict => String::from_str("Conflict"),
            ResponseStatus::Gone => String::from_str("Gone"),
            ResponseStatus::LengthRequired => String::from_str("LengthRequired"),
            ResponseStatus::PreconditionFailed => String::from_str("PreconditionFailed"),
            ResponseStatus::ContentTooLarge => String::from_str("ContentTooLarge"),
            ResponseStatus::URITooLong => String::from_str("URITooLong"),
            ResponseStatus::UnsupportedMediaType => String::from_str("UnsupportedMediaType"),
            ResponseStatus::RangeNotSatisfiable => String::from_str("RangeNotSatisfiable"),
            ResponseStatus::ExpectationFailed => String::from_str("ExpectationFailed"),
            ResponseStatus::Imateapot => String::from_str("Imateapot"),
            ResponseStatus::MisdirectedRequest => String::from_str("MisdirectedRequest"),
            ResponseStatus::UnprocessableContent => String::from_str("UnprocessableContent"),
            ResponseStatus::Locked => String::from_str("Locked"),
            ResponseStatus::FailedDependency => String::from_str("FailedDependency"),
            ResponseStatus::TooEarly => String::from_str("TooEarly"),
            ResponseStatus::UpgradeRequired => String::from_str("UpgradeRequired"),
            ResponseStatus::PreconditionRequired => String::from_str("PreconditionRequired"),
            ResponseStatus::TooManyRequests => String::from_str("TooManyRequests"),
            ResponseStatus::RequestHeaderFieldsTooLarge => String::from_str("RequestHeaderFieldsTooLarge"),
            ResponseStatus::UnavailableForLegalReasons => String::from_str("UnavailableForLegalReasons"),
            ResponseStatus::InternalServerError => String::from_str("InternalServerError"),
            ResponseStatus::NotImplemented => String::from_str("NotImplemented"),
            ResponseStatus::BadGateway => String::from_str("BadGateway"),
            ResponseStatus::ServiceUnavailable => String::from_str("ServiceUnavailable"),
            ResponseStatus::GatewayTimeout => String::from_str("GatewayTimeout"),
            ResponseStatus::HTTPVersionNotSupported => String::from_str("HTTPVersionNotSupported"),
            ResponseStatus::VariantAlsoNegotiates => String::from_str("VariantAlsoNegotiates"),
            ResponseStatus::InsufficientStorage => String::from_str("InsufficientStorage"),
            ResponseStatus::LoopDetected => String::from_str("LoopDetected"),
            ResponseStatus::NotExtended => String::from_str("NotExtended"),
            ResponseStatus::NetworkAuthenticationRequired => String::from_str("NetworkAuthenticationRequired"),
            ResponseStatus::NonStandard(_, _) => String::new(),
        }
    }
}

/// The human reason phrase beside the code on the status line: the
/// PascalCase name spaced at each interior lower-to-upper boundary, with
/// the hyphenated, the apostrophized and the non-standard cases special.
pub open spec fn phrase_spec(s: ResponseStatus) -> Seq<char> {
    match s {
        ResponseStatus::NonAuthoritativeInformation => "Non-Authoritative Information"@,
        ResponseStatus::MultiStatus => "Multi-Status"@,
        ResponseStatus::Imateapot => "I'm A Teapot"@,
        ResponseStatus::NonStandard(code, name) => dec_rep(code as int) + seq![' '] + name@,
        _ => spread_camel(pascal_name(s)),
    }
}

impl ResponseStatus {
    /// The human reason phrase for the status line.
    pub fn reason_phrase(&self) -> (r: String)
        ensures
            r@ == phrase_spec(*self),
    {
        match self {
            ResponseStatus::NonAuthoritativeInformation => String::from_str(
                "Non-Authoritative Information",
            ),
            ResponseStatus::MultiStatus => String::from_str("Multi-Status"),
            ResponseStatus::Imateapot => String::from_str("I'm A Teapot"),
            ResponseStatus::NonStandard(code, name) => {
                let mut out = u64_to_dec(*code as u64);
                push_char(&mut out, ' ');
                out.append(name.as_str());
                proof {
                    assert(out@ =~= dec_rep(*code as int) + seq![' '] + name@);
                }
                out
            },
            _ => {
                let n = self.name();
                unpascal_case(n.as_str())
            },
        }
    }
}

/// No two standard statuses share a numeric code: `to_code` is unique
/// per variant, the `NonStandard` escape aside, which carries its own.
pub proof fn lemma_status_code_unique(a: ResponseStatus, b: ResponseStatus)
    requires
        !(a is NonStandard),
        !(b is NonStandard),
        code_spec(a) == code_spec(b),
    ensures
        a == b,
{
}

} // verus!
