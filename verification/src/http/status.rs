//! Response status codes.
use super::cistr::CaseInsensitiveStr;
use super::status_names;
use super::status_ordinals;
use super::cistr::lemma_ci_eq_equivalence;
use crate::text::{chars_of, ci_char_eq, ci_eq, is_digit, str_eq_ignore_case};
use vstd::prelude::*;

verus! {

/// The status codes of RFC 9110 and its companions.
#[derive(Debug, Copy, Clone, PartialEq, Eq, Structural, PartialOrd, Ord, Hash)]
pub enum Status {
    Continue100,
    SwitchingProtocols101,
    Processing102,
    EarlyHints103,
    Ok200,
    Created201,
    Accepted202,
    NonAuthoritativeInformation203,
    NoContent204,
    ResetContent205,
    PartialContent206,
    MultiStatus207,
    AlreadyReported208,
    ImUsed226,
    MultipleChoices300,
    MovedPermanently301,
    Found302,
    SeeOther303,
    NotModified304,
    UseProxy305,
    TemporaryRedirect307,
    PermanentRedirect308,
    BadRequest400,
    Unauthorized401,
    PaymentRequired402,
    Forbidden403,
    NotFound404,
    MethodNotAllowed405,
    NotAcceptable406,
    ProxyAuthenticationRequired407,
    RequestTimeout408,
    Conflict409,
    Gone410,
    LengthRequired411,
    PreconditionFailed412,
    ContentTooLarge413,
    UriTooLong414,
    UnsupportedMediaType415,
    RangeNotSatisfiable416,
    ExpectationFailed417,
    ImATeapot418,
    MisdirectedRequest421,
    UnprocessableEntity422,
    Locked423,
    FailedDependency424,
    TooEarly425,
    UpgradeRequired426,
    PreconditionRequired428,
    TooManyRequests429,
    RequestHeaderFieldsTooLarge431,
    UnavailableForLegalReasons451,
    InternalServerError500,
    NotImplemented501,
    BadGateway502,
    ServiceUnavailable503,
    GatewayTimeout504,
    HttpVersionNotSupported505,
    VariantAlsoNegotiates506,
    InsufficientStorage507,
    LoopDetected508,
    NotExtended510,
    NetworkAuthenticationRequired511,
}

impl Status {
    /// The text of the status as a status line holds it: the code, a space, the reason.
    pub open spec fn text(self) -> Seq<char> {
        match self {
            Status::Continue100 => seq!['1', '0', '0', ' ', 'C', 'o', 'n', 't', 'i', 'n', 'u', 'e'],
            Status::SwitchingProtocols101 => seq!['1', '0', '1', ' ', 'S', 'w', 'i', 't', 'c', 'h', 'i', 'n', 'g', ' ', 'P', 'r', 'o', 't', 'o', 'c', 'o', 'l', 's'],
            Status::Processing102 => seq!['1', '0', '2', ' ', 'P', 'r', 'o', 'c', 'e', 's', 's', 'i', 'n', 'g'],
            Status::EarlyHints103 => seq!['1', '0', '3', ' ', 'E', 'a', 'r', 'l', 'y', ' ', 'H', 'i', 'n', 't', 's'],
            Status::Ok200 => seq!['2', '0', '0', ' ', 'O', 'K'],
            Status::Created201 => seq!['2', '0', '1', ' ', 'C', 'r', 'e', 'a', 't', 'e', 'd'],
            Status::Accepted202 => seq!['2', '0', '2', ' ', 'A', 'c', 'c', 'e', 'p', 't', 'e', 'd'],
            Status::NonAuthoritativeInformation203 => seq!['2', '0', '3', ' ', 'N', 'o', 'n', '-', 'A', 'u', 't', 'h', 'o', 'r', 'i', 't', 'a', 't', 'i', 'v', 'e', ' ', 'I', 'n', 'f', 'o', 'r', 'm', 'a', 't', 'i', 'o', 'n'],
            Status::NoContent204 => seq!['2', '0', '4', ' ', 'N', 'o', ' ', 'C', 'o', 'n', 't', 'e', 'n', 't'],
            Status::ResetContent205 => seq!['2', '0', '5', ' ', 'R', 'e', 's', 'e', 't', ' ', 'C', 'o', 'n', 't', 'e', 'n', 't'],
            Status::PartialContent206 => seq!['2', '0', '6', ' ', 'P', 'a', 'r', 't', 'i', 'a', 'l', ' ', 'C', 'o', 'n', 't', 'e', 'n', 't'],
            Status::MultiStatus207 => seq!['2', '0', '7', ' ', 'M', 'u', 'l', 't', 'i', '-', 'S', 't', 'a', 't', 'u', 's'],
            Status::AlreadyReported208 => seq!['2', '0', '8', ' ', 'A', 'l', 'r', 'e', 'a', 'd', 'y', ' ', 'R', 'e', 'p', 'o', 'r', 't', 'e', 'd'],
            Status::ImUsed226 => seq!['2', '2', '6', ' ', 'I', 'M', ' ', 'U', 's', 'e', 'd'],
            Status::MultipleChoices300 => seq!['3', '0', '0', ' ', 'M', 'u', 'l', 't', 'i', 'p', 'l', 'e', ' ', 'C', 'h', 'o', 'i', 'c', 'e', 's'],
            Status::MovedPermanently301 => seq!['3', '0', '1', ' ', 'M', 'o', 'v', 'e', 'd', ' ', 'P', 'e', 'r', 'm', 'a', 'n', 'e', 'n', 't', 'l', 'y'],
            Status::Found302 => seq!['3', '0', '2', ' ', 'F', 'o', 'u', 'n', 'd'],
            Status::SeeOther303 => seq!['3', '0', '3', ' ', 'S', 'e', 'e', ' ', 'O', 't', 'h', 'e', 'r'],
            Status::NotModified304 => seq!['3', '0', '4', ' ', 'N', 'o', 't', ' ', 'M', 'o', 'd', 'i', 'f', 'i', 'e', 'd'],
            Status::UseProxy305 => seq!['3', '0', '5', ' ', 'U', 's', 'e', ' ', 'P', 'r', 'o', 'x', 'y'],
            Status::TemporaryRedirect307 => seq!['3', '0', '7', ' ', 'T', 'e', 'm', 'p', 'o', 'r', 'a', 'r', 'y', ' ', 'R', 'e', 'd', 'i', 'r', 'e', 'c', 't'],
            Status::PermanentRedirect308 => seq!['3', '0', '8', ' ', 'P', 'e', 'r', 'm', 'a', 'n', 'e', 'n', 't', ' ', 'R', 'e', 'd', 'i', 'r', 'e', 'c', 't'],
            Status::BadRequest400 => seq!['4', '0', '0', ' ', 'B', 'a', 'd', ' ', 'R', 'e', 'q', 'u', 'e', 's', 't'],
            Status::Unauthorized401 => seq!['4', '0', '1', ' ', 'U', 'n', 'a', 'u', 't', 'h', 'o', 'r', 'i', 'z', 'e', 'd'],
            Status::PaymentRequired402 => seq!['4', '0', '2', ' ', 'P', 'a', 'y', 'm', 'e', 'n', 't', ' ', 'R', 'e', 'q', 'u', 'i', 'r', 'e', 'd'],
            Status::Forbidden403 => seq!['4', '0', '3', ' ', 'F', 'o', 'r', 'b', 'i', 'd', 'd', 'e', 'n'],
            Status::NotFound404 => seq!['4', '0', '4', ' ', 'N', 'o', 't', ' ', 'F', 'o', 'u', 'n', 'd'],
            Status::MethodNotAllowed405 => seq!['4', '0', '5', ' ', 'M', 'e', 't', 'h', 'o', 'd', ' ', 'N', 'o', 't', ' ', 'A', 'l', 'l', 'o', 'w', 'e', 'd'],
            Status::NotAcceptable406 => seq!['4', '0', '6', ' ', 'N', 'o', 't', ' ', 'A', 'c', 'c', 'e', 'p', 't', 'a', 'b', 'l', 'e'],
            Status::ProxyAuthenticationRequired407 => seq!['4', '0', '7', ' ', 'P', 'r', 'o', 'x', 'y', ' ', 'A', 'u', 't', 'h', 'e', 'n', 't', 'i', 'c', 'a', 't', 'i', 'o', 'n', ' ', 'R', 'e', 'q', 'u', 'i', 'r', 'e', 'd'],
            Status::RequestTimeout408 => seq!['4', '0', '8', ' ', 'R', 'e', 'q', 'u', 'e', 's', 't', ' ', 'T', 'i', 'm', 'e', 'o', 'u', 't'],
            Status::Conflict409 => seq!['4', '0', '9', ' ', 'C', 'o', 'n', 'f', 'l', 'i', 'c', 't'],
            Status::Gone410 => seq!['4', '1', '0', ' ', 'G', 'o', 'n', 'e'],
            Status::LengthRequired411 => seq!['4', '1', '1', ' ', 'L', 'e', 'n', 'g', 't', 'h', ' ', 'R', 'e', 'q', 'u', 'i', 'r', 'e', 'd'],
            Status::PreconditionFailed412 => seq!['4', '1', '2', ' ', 'P', 'r', 'e', 'c', 'o', 'n', 'd', 'i', 't', 'i', 'o', 'n', ' ', 'F', 'a', 'i', 'l', 'e', 'd'],
            Status::ContentTooLarge413 => seq!['4', '1', '3', ' ', 'C', 'o', 'n', 't', 'e', 'n', 't', ' ', 'T', 'o', 'o', ' ', 'L', 'a', 'r', 'g', 'e'],
            Status::UriTooLong414 => seq!['4', '1', '4', ' ', 'U', 'R', 'I', ' ', 'T', 'o', 'o', ' ', 'L', 'o', 'n', 'g'],
            Status::UnsupportedMediaType415 => seq!['4', '1', '5', ' ', 'U', 'n', 's', 'u', 'p', 'p', 'o', 'r', 't', 'e', 'd', ' ', 'M', 'e', 'd', 'i', 'a', ' ', 'T', 'y', 'p', 'e'],
            Status::RangeNotSatisfiable416 => seq!['4', '1', '6', ' ', 'R', 'a', 'n', 'g', 'e', ' ', 'N', 'o', 't', ' ', 'S', 'a', 't', 'i', 's', 'f', 'i', 'a', 'b', 'l', 'e'],
            Status::ExpectationFailed417 => seq!['4', '1', '7', ' ', 'E', 'x', 'p', 'e', 'c', 't', 'a', 't', 'i', 'o', 'n', ' ', 'F', 'a', 'i', 'l', 'e', 'd'],
            Status::ImATeapot418 => seq!['4', '1', '8', ' ', 'I', '\'', 'm', ' ', 'a', ' ', 't', 'e', 'a', 'p', 'o', 't'],
            Status::MisdirectedRequest421 => seq!['4', '2', '1', ' ', 'M', 'i', 's', 'd', 'i', 'r', 'e', 'c', 't', 'e', 'd', ' ', 'R', 'e', 'q', 'u', 'e', 's', 't'],
            Status::UnprocessableEntity422 => seq!['4', '2', '2', ' ', 'U', 'n', 'p', 'r', 'o', 'c', 'e', 's', 's', 'a', 'b', 'l', 'e', ' ', 'E', 'n', 't', 'i', 't', 'y'],
            Status::Locked423 => seq!['4', '2', '3', ' ', 'L', 'o', 'c', 'k', 'e', 'd'],
            Status::FailedDependency424 => seq!['4', '2', '4', ' ', 'F', 'a', 'i', 'l', 'e', 'd', ' ', 'D', 'e', 'p', 'e', 'n', 'd', 'e', 'n', 'c', 'y'],
            Status::TooEarly425 => seq!['4', '2', '5', ' ', 'T', 'o', 'o', ' ', 'E', 'a', 'r', 'l', 'y'],
            Status::UpgradeRequired426 => seq!['4', '2', '6', ' ', 'U', 'p', 'g', 'r', 'a', 'd', 'e', ' ', 'R', 'e', 'q', 'u', 'i', 'r', 'e', 'd'],
            Status::PreconditionRequired428 => seq!['4', '2', '8', ' ', 'P', 'r', 'e', 'c', 'o', 'n', 'd', 'i', 't', 'i', 'o', 'n', ' ', 'R', 'e', 'q', 'u', 'i', 'r', 'e', 'd'],
            Status::TooManyRequests429 => seq!['4', '2', '9', ' ', 'T', 'o', 'o', ' ', 'M', 'a', 'n', 'y', ' ', 'R', 'e', 'q', 'u', 'e', 's', 't', 's'],
            Status::RequestHeaderFieldsTooLarge431 => seq!['4', '3', '1', ' ', 'R', 'e', 'q', 'u', 'e', 's', 't', ' ', 'H', 'e', 'a', 'd', 'e', 'r', ' ', 'F', 'i', 'e', 'l', 'd', 's', ' ', 'T', 'o', 'o', ' ', 'L', 'a', 'r', 'g', 'e'],
            Status::UnavailableForLegalReasons451 => seq!['4', '5', '1', ' ', 'U', 'n', 'a', 'v', 'a', 'i', 'l', 'a', 'b', 'l', 'e', ' ', 'F', 'o', 'r', ' ', 'L', 'e', 'g', 'a', 'l', ' ', 'R', 'e', 'a', 's', 'o', 'n', 's'],
            Status::InternalServerError500 => seq!['5', '0', '0', ' ', 'I', 'n', 't', 'e', 'r', 'n', 'a', 'l', ' ', 'S', 'e', 'r', 'v', 'e', 'r', ' ', 'E', 'r', 'r', 'o', 'r'],
            Status::NotImplemented501 => seq!['5', '0', '1', ' ', 'N', 'o', 't', ' ', 'I', 'm', 'p', 'l', 'e', 'm', 'e', 'n', 't', 'e', 'd'],
            Status::BadGateway502 => seq!['5', '0', '2', ' ', 'B', 'a', 'd', ' ', 'G', 'a', 't', 'e', 'w', 'a', 'y'],
            Status::ServiceUnavailable503 => seq!['5', '0', '3', ' ', 'S', 'e', 'r', 'v', 'i', 'c', 'e', ' ', 'U', 'n', 'a', 'v', 'a', 'i', 'l', 'a', 'b', 'l', 'e'],
            Status::GatewayTimeout504 => seq!['5', '0', '4', ' ', 'G', 'a', 't', 'e', 'w', 'a', 'y', ' ', 'T', 'i', 'm', 'e', 'o', 'u', 't'],
            Status::HttpVersionNotSupported505 => seq!['5', '0', '5', ' ', 'H', 'T', 'T', 'P', ' ', 'V', 'e', 'r', 's', 'i', 'o', 'n', ' ', 'N', 'o', 't', ' ', 'S', 'u', 'p', 'p', 'o', 'r', 't', 'e', 'd'],
            Status::VariantAlsoNegotiates506 => seq!['5', '0', '6', ' ', 'V', 'a', 'r', 'i', 'a', 'n', 't', ' ', 'A', 'l', 's', 'o', ' ', 'N', 'e', 'g', 'o', 't', 'i', 'a', 't', 'e', 's'],
            Status::InsufficientStorage507 => seq!['5', '0', '7', ' ', 'I', 'n', 's', 'u', 'f', 'f', 'i', 'c', 'i', 'e', 'n', 't', ' ', 'S', 't', 'o', 'r', 'a', 'g', 'e'],
            Status::LoopDetected508 => seq!['5', '0', '8', ' ', 'L', 'o', 'o', 'p', ' ', 'D', 'e', 't', 'e', 'c', 't', 'e', 'd'],
            Status::NotExtended510 => seq!['5', '1', '0', ' ', 'N', 'o', 't', ' ', 'E', 'x', 't', 'e', 'n', 'd', 'e', 'd'],
            Status::NetworkAuthenticationRequired511 => seq!['5', '1', '1', ' ', 'N', 'e', 't', 'w', 'o', 'r', 'k', ' ', 'A', 'u', 't', 'h', 'e', 'n', 't', 'i', 'c', 'a', 't', 'i', 'o', 'n', ' ', 'R', 'e', 'q', 'u', 'i', 'r', 'e', 'd'],
        }
    }

    /// The numeric code.
    pub open spec fn code(self) -> u16 {
        match self {
            Status::Continue100 => 100,
            Status::SwitchingProtocols101 => 101,
            Status::Processing102 => 102,
            Status::EarlyHints103 => 103,
            Status::Ok200 => 200,
            Status::Created201 => 201,
            Status::Accepted202 => 202,
            Status::NonAuthoritativeInformation203 => 203,
            Status::NoContent204 => 204,
            Status::ResetContent205 => 205,
            Status::PartialContent206 => 206,
            Status::MultiStatus207 => 207,
            Status::AlreadyReported208 => 208,
            Status::ImUsed226 => 226,
            Status::MultipleChoices300 => 300,
            Status::MovedPermanently301 => 301,
            Status::Found302 => 302,
            Status::SeeOther303 => 303,
            Status::NotModified304 => 304,
            Status::UseProxy305 => 305,
            Status::TemporaryRedirect307 => 307,
            Status::PermanentRedirect308 => 308,
            Status::BadRequest400 => 400,
            Status::Unauthorized401 => 401,
            Status::PaymentRequired402 => 402,
            Status::Forbidden403 => 403,
            Status::NotFound404 => 404,
            Status::MethodNotAllowed405 => 405,
            Status::NotAcceptable406 => 406,
            Status::ProxyAuthenticationRequired407 => 407,
            Status::RequestTimeout408 => 408,
            Status::Conflict409 => 409,
            Status::Gone410 => 410,
            Status::LengthRequired411 => 411,
            Status::PreconditionFailed412 => 412,
            Status::ContentTooLarge413 => 413,
            Status::UriTooLong414 => 414,
            Status::UnsupportedMediaType415 => 415,
            Status::RangeNotSatisfiable416 => 416,
            Status::ExpectationFailed417 => 417,
            Status::ImATeapot418 => 418,
            Status::MisdirectedRequest421 => 421,
            Status::UnprocessableEntity422 => 422,
            Status::Locked423 => 423,
            Status::FailedDependency424 => 424,
            Status::TooEarly425 => 425,
            Status::UpgradeRequired426 => 426,
            Status::PreconditionRequired428 => 428,
            Status::TooManyRequests429 => 429,
            Status::RequestHeaderFieldsTooLarge431 => 431,
            Status::UnavailableForLegalReasons451 => 451,
            Status::InternalServerError500 => 500,
            Status::NotImplemented501 => 501,
            Status::BadGateway502 => 502,
            Status::ServiceUnavailable503 => 503,
            Status::GatewayTimeout504 => 504,
            Status::HttpVersionNotSupported505 => 505,
            Status::VariantAlsoNegotiates506 => 506,
            Status::InsufficientStorage507 => 507,
            Status::LoopDetected508 => 508,
            Status::NotExtended510 => 510,
            Status::NetworkAuthenticationRequired511 => 511,
        }
    }
}

/// The status whose text equals `s` without regard to ASCII case (there is at most one:
/// see `lemma_status_text_unique`).
pub open spec fn parse_status(s: Seq<char>) -> Option<Status> {
    if exists|x: Status| ci_eq(s, #[trigger] x.text()) {
        Some(choose|x: Status| ci_eq(s, #[trigger] x.text()))
    } else {
        None
    }
}

/// The value of three decimal digits.
pub open spec fn three_digits(s: Seq<char>) -> int {
    (s[0] as int - '0' as int) * 100 + (s[1] as int - '0' as int) * 10 + (s[2] as int - '0' as int)
}

/// Every status text starts with the three digits of its code.
pub proof fn lemma_status_text_shape(x: Status)
    ensures
        x.text().len() >= 3,
        is_digit(x.text()[0]) && is_digit(x.text()[1]) && is_digit(x.text()[2]),
        three_digits(x.text()) == x.code() as int,
{
}

/// A character equal to a digit without regard to ASCII case is that digit.
proof fn lemma_ci_digit(c: char, d: char)
    requires
        is_digit(d),
        ci_char_eq(c, d),
    ensures
        c == d,
{
}

/// No two statuses have texts that are equal without regard to ASCII case.
pub proof fn lemma_status_text_unique(x: Status, y: Status)
    requires
        ci_eq(x.text(), y.text()),
    ensures
        x == y,
{
    lemma_status_text_shape(x);
    lemma_status_text_shape(y);
    lemma_ci_digit(x.text()[0], y.text()[0]);
    lemma_ci_digit(x.text()[1], y.text()[1]);
    lemma_ci_digit(x.text()[2], y.text()[2]);
    lemma_status_parse_code(x);
    lemma_status_parse_code(y);
}

/// The status with the numeric code `code`.
pub open spec fn status_of_code(code: u16) -> Option<Status> {
    if code == 100 {
        Some(Status::Continue100)
    } else if code == 101 {
        Some(Status::SwitchingProtocols101)
    } else if code == 102 {
        Some(Status::Processing102)
    } else if code == 103 {
        Some(Status::EarlyHints103)
    } else if code == 200 {
        Some(Status::Ok200)
    } else if code == 201 {
        Some(Status::Created201)
    } else if code == 202 {
        Some(Status::Accepted202)
    } else if code == 203 {
        Some(Status::NonAuthoritativeInformation203)
    } else if code == 204 {
        Some(Status::NoContent204)
    } else if code == 205 {
        Some(Status::ResetContent205)
    } else if code == 206 {
        Some(Status::PartialContent206)
    } else if code == 207 {
        Some(Status::MultiStatus207)
    } else if code == 208 {
        Some(Status::AlreadyReported208)
    } else if code == 226 {
        Some(Status::ImUsed226)
    } else if code == 300 {
        Some(Status::MultipleChoices300)
    } else if code == 301 {
        Some(Status::MovedPermanently301)
    } else if code == 302 {
        Some(Status::Found302)
    } else if code == 303 {
        Some(Status::SeeOther303)
    } else if code == 304 {
        Some(Status::NotModified304)
    } else if code == 305 {
        Some(Status::UseProxy305)
    } else if code == 307 {
        Some(Status::TemporaryRedirect307)
    } else if code == 308 {
        Some(Status::PermanentRedirect308)
    } else if code == 400 {
        Some(Status::BadRequest400)
    } else if code == 401 {
        Some(Status::Unauthorized401)
    } else if code == 402 {
        Some(Status::PaymentRequired402)
    } else if code == 403 {
        Some(Status::Forbidden403)
    } else if code == 404 {
        Some(Status::NotFound404)
    } else if code == 405 {
        Some(Status::MethodNotAllowed405)
    } else if code == 406 {
        Some(Status::NotAcceptable406)
    } else if code == 407 {
        Some(Status::ProxyAuthenticationRequired407)
    } else if code == 408 {
        Some(Status::RequestTimeout408)
    } else if code == 409 {
        Some(Status::Conflict409)
    } else if code == 410 {
        Some(Status::Gone410)
    } else if code == 411 {
        Some(Status::LengthRequired411)
    } else if code == 412 {
        Some(Status::PreconditionFailed412)
    } else if code == 413 {
        Some(Status::ContentTooLarge413)
    } else if code == 414 {
        Some(Status::UriTooLong414)
    } else if code == 415 {
        Some(Status::UnsupportedMediaType415)
    } else if code == 416 {
        Some(Status::RangeNotSatisfiable416)
    } else if code == 417 {
        Some(Status::ExpectationFailed417)
    } else if code == 418 {
        Some(Status::ImATeapot418)
    } else if code == 421 {
        Some(Status::MisdirectedRequest421)
    } else if code == 422 {
        Some(Status::UnprocessableEntity422)
    } else if code == 423 {
        Some(Status::Locked423)
    } else if code == 424 {
        Some(Status::FailedDependency424)
    } else if code == 425 {
        Some(Status::TooEarly425)
    } else if code == 426 {
        Some(Status::UpgradeRequired426)
    } else if code == 428 {
        Some(Status::PreconditionRequired428)
    } else if code == 429 {
        Some(Status::TooManyRequests429)
    } else if code == 431 {
        Some(Status::RequestHeaderFieldsTooLarge431)
    } else if code == 451 {
        Some(Status::UnavailableForLegalReasons451)
    } else if code == 500 {
        Some(Status::InternalServerError500)
    } else if code == 501 {
        Some(Status::NotImplemented501)
    } else if code == 502 {
        Some(Status::BadGateway502)
    } else if code == 503 {
        Some(Status::ServiceUnavailable503)
    } else if code == 504 {
        Some(Status::GatewayTimeout504)
    } else if code == 505 {
        Some(Status::HttpVersionNotSupported505)
    } else if code == 506 {
        Some(Status::VariantAlsoNegotiates506)
    } else if code == 507 {
        Some(Status::InsufficientStorage507)
    } else if code == 508 {
        Some(Status::LoopDetected508)
    } else if code == 510 {
        Some(Status::NotExtended510)
    } else if code == 511 {
        Some(Status::NetworkAuthenticationRequired511)
    } else {
        None
    }
}

impl Status {
    /// The status whose text (`"404 Not Found"`) equals `value` without regard to ASCII case.
    pub fn parse(value: CaseInsensitiveStr) -> (r: Option<Self>)
        ensures
            r == parse_status(value@),
    {
        let v = chars_of(value.case_sensitive());
        if v.len() < 3 || !('0' <= v[0] && v[0] <= '9') || !('0' <= v[1] && v[1] <= '9') || !(
        '0' <= v[2] && v[2] <= '9') {
            proof {
                assert forall|x: Status| !ci_eq(value@, #[trigger] x.text()) by {
                    lemma_status_text_shape(x);
                    if ci_eq(value@, x.text()) {
                        lemma_ci_digit(value@[0], x.text()[0]);
                        lemma_ci_digit(value@[1], x.text()[1]);
                        lemma_ci_digit(value@[2], x.text()[2]);
                    }
                }
            }
            return None;
        }
        let code: u16 = ((v[0] as u32 - '0' as u32) * 100 + (v[1] as u32 - '0' as u32) * 10 + (
        v[2] as u32 - '0' as u32)) as u16;
        assert(code as int == three_digits(value@));
        match Status::parse_u16(code) {
            None => {
                proof {
                    assert forall|x: Status| !ci_eq(value@, #[trigger] x.text()) by {
                        lemma_status_text_shape(x);
                        if ci_eq(value@, x.text()) {
                            lemma_ci_digit(value@[0], x.text()[0]);
                            lemma_ci_digit(value@[1], x.text()[1]);
                            lemma_ci_digit(value@[2], x.text()[2]);
                            lemma_status_parse_code(x);
                        }
                    }
                }
                None
            },
            Some(s) => {
                let t = s.as_str();
                if str_eq_ignore_case(value.case_sensitive(), t) {
                    proof {
                        let c = choose|x: Status| ci_eq(value@, #[trigger] x.text());
                        lemma_ci_eq_equivalence(value@, s.text(), c.text());
                        lemma_ci_eq_equivalence(s.text(), value@, c.text());
                        lemma_status_text_unique(s, c);
                    }
                    Some(s)
                } else {
                    proof {
                        assert forall|x: Status| !ci_eq(value@, #[trigger] x.text()) by {
                            lemma_status_text_shape(x);
                            if ci_eq(value@, x.text()) {
                                lemma_ci_digit(value@[0], x.text()[0]);
                                lemma_ci_digit(value@[1], x.text()[1]);
                                lemma_ci_digit(value@[2], x.text()[2]);
                                lemma_status_parse_code(x);
                            }
                        }
                    }
                    None
                }
            },
        }
    }

    /// The status with the numeric code `value`.
    pub fn parse_u16(value: u16) -> (r: Option<Self>)
        ensures
            r == status_of_code(value),
    {
        match value {
            status_ordinals::CONTINUE_100 => Some(Self::Continue100),
            status_ordinals::SWITCHING_PROTOCOLS_101 => Some(Self::SwitchingProtocols101),
            status_ordinals::PROCESSING_102 => Some(Self::Processing102),
            status_ordinals::EARLY_HINTS_103 => Some(Self::EarlyHints103),
            status_ordinals::OK_200 => Some(Self::Ok200),
            status_ordinals::CREATED_201 => Some(Self::Created201),
            status_ordinals::ACCEPTED_202 => Some(Self::Accepted202),
            status_ordinals::NON_AUTHORITATIVE_INFORMATION_203 => Some(Self::NonAuthoritativeInformation203),
            status_ordinals::NO_CONTENT_204 => Some(Self::NoContent204),
            status_ordinals::RESET_CONTENT_205 => Some(Self::ResetContent205),
            status_ordinals::PARTIAL_CONTENT_206 => Some(Self::PartialContent206),
            status_ordinals::MULTI_STATUS_207 => Some(Self::MultiStatus207),
            status_ordinals::ALREADY_REPORTED_208 => Some(Self::AlreadyReported208),
            status_ordinals::IM_USED_226 => Some(Self::ImUsed226),
            status_ordinals::MULTIPLE_CHOICES_300 => Some(Self::MultipleChoices300),
            status_ordinals::MOVED_PERMANENTLY_301 => Some(Self::MovedPermanently301),
            status_ordinals::FOUND_302 => Some(Self::Found302),
            status_ordinals::SEE_OTHER_303 => Some(Self::SeeOther303),
            status_ordinals::NOT_MODIFIED_304 => Some(Self::NotModified304),
            status_ordinals::USE_PROXY_305 => Some(Self::UseProxy305),
            status_ordinals::TEMPORARY_REDIRECT_307 => Some(Self::TemporaryRedirect307),
            status_ordinals::PERMANENT_REDIRECT_308 => Some(Self::PermanentRedirect308),
            status_ordinals::BAD_REQUEST_400 => Some(Self::BadRequest400),
            status_ordinals::UNAUTHORIZED_401 => Some(Self::Unauthorized401),
            status_ordinals::PAYMENT_REQUIRED_402 => Some(Self::PaymentRequired402),
            status_ordinals::FORBIDDEN_403 => Some(Self::Forbidden403),
            status_ordinals::NOT_FOUND_404 => Some(Self::NotFound404),
            status_ordinals::METHOD_NOT_ALLOWED_405 => Some(Self::MethodNotAllowed405),
            status_ordinals::NOT_ACCEPTABLE_406 => Some(Self::NotAcceptable406),
            status_ordinals::PROXY_AUTHENTICATION_REQUIRED_407 => Some(Self::ProxyAuthenticationRequired407),
            status_ordinals::REQUEST_TIMEOUT_408 => Some(Self::RequestTimeout408),
            status_ordinals::CONFLICT_409 => Some(Self::Conflict409),
            status_ordinals::GONE_410 => Some(Self::Gone410),
            status_ordinals::LENGTH_REQUIRED_411 => Some(Self::LengthRequired411),
            status_ordinals::PRECONDITION_FAILED_412 => Some(Self::PreconditionFailed412),
            status_ordinals::CONTENT_TOO_LARGE_413 => Some(Self::ContentTooLarge413),
            status_ordinals::URI_TOO_LONG_414 => Some(Self::UriTooLong414),
            status_ordinals::UNSUPPORTED_MEDIA_TYPE_415 => Some(Self::UnsupportedMediaType415),
            status_ordinals::RANGE_NOT_SATISFIABLE_416 => Some(Self::RangeNotSatisfiable416),
            status_ordinals::EXPECTATION_FAILED_417 => Some(Self::ExpectationFailed417),
            status_ordinals::IM_A_TEAPOT_418 => Some(Self::ImATeapot418),
            status_ordinals::MISDIRECTED_REQUEST_421 => Some(Self::MisdirectedRequest421),
            status_ordinals::UNPROCESSABLE_ENTITY_422 => Some(Self::UnprocessableEntity422),
            status_ordinals::LOCKED_423 => Some(Self::Locked423),
            status_ordinals::FAILED_DEPENDENCY_424 => Some(Self::FailedDependency424),
            status_ordinals::TOO_EARLY_425 => Some(Self::TooEarly425),
            status_ordinals::UPGRADE_REQUIRED_426 => Some(Self::UpgradeRequired426),
            status_ordinals::PRECONDITION_REQUIRED_428 => Some(Self::PreconditionRequired428),
            status_ordinals::TOO_MANY_REQUESTS_429 => Some(Self::TooManyRequests429),
            status_ordinals::REQUEST_HEADER_FIELDS_TOO_LARGE_431 => Some(Self::RequestHeaderFieldsTooLarge431),
            status_ordinals::UNAVAILABLE_FOR_LEGAL_REASONS_451 => Some(Self::UnavailableForLegalReasons451),
            status_ordinals::INTERNAL_SERVER_ERROR_500 => Some(Self::InternalServerError500),
            status_ordinals::NOT_IMPLEMENTED_501 => Some(Self::NotImplemented501),
            status_ordinals::BAD_GATEWAY_502 => Some(Self::BadGateway502),
            status_ordinals::SERVICE_UNAVAILABLE_503 => Some(Self::ServiceUnavailable503),
            status_ordinals::GATEWAY_TIMEOUT_504 => Some(Self::GatewayTimeout504),
            status_ordinals::HTTP_VERSION_NOT_SUPPORTED_505 => Some(Self::HttpVersionNotSupported505),
            status_ordinals::VARIANT_ALSO_NEGOTIATES_506 => Some(Self::VariantAlsoNegotiates506),
            status_ordinals::INSUFFICIENT_STORAGE_507 => Some(Self::InsufficientStorage507),
            status_ordinals::LOOP_DETECTED_508 => Some(Self::LoopDetected508),
            status_ordinals::NOT_EXTENDED_510 => Some(Self::NotExtended510),
            status_ordinals::NETWORK_AUTHENTICATION_REQUIRED_511 => Some(Self::NetworkAuthenticationRequired511),
            _ => None,
        }
    }

    /// The text of the status: code, space, reason phrase.
    pub fn as_str(&self) -> (r: &'static str)
        ensures
            r@ == self.text(),
    {
        proof {
            reveal_strlit("100 Continue");
            reveal_strlit("101 Switching Protocols");
            reveal_strlit("102 Processing");
            reveal_strlit("103 Early Hints");
            reveal_strlit("200 OK");
            reveal_strlit("201 Created");
            reveal_strlit("202 Accepted");
            reveal_strlit("203 Non-Authoritative Information");
            reveal_strlit("204 No Content");
            reveal_strlit("205 Reset Content");
            reveal_strlit("206 Partial Content");
            reveal_strlit("207 Multi-Status");
            reveal_strlit("208 Already Reported");
            reveal_strlit("226 IM Used");
            reveal_strlit("300 Multiple Choices");
            reveal_strlit("301 Moved Permanently");
            reveal_strlit("302 Found");
            reveal_strlit("303 See Other");
            reveal_strlit("304 Not Modified");
            reveal_strlit("305 Use Proxy");
            reveal_strlit("307 Temporary Redirect");
            reveal_strlit("308 Permanent Redirect");
            reveal_strlit("400 Bad Request");
            reveal_strlit("401 Unauthorized");
            reveal_strlit("402 Payment Required");
            reveal_strlit("403 Forbidden");
            reveal_strlit("404 Not Found");
            reveal_strlit("405 Method Not Allowed");
            reveal_strlit("406 Not Acceptable");
            reveal_strlit("407 Proxy Authentication Required");
            reveal_strlit("408 Request Timeout");
            reveal_strlit("409 Conflict");
            reveal_strlit("410 Gone");
            reveal_strlit("411 Length Required");
            reveal_strlit("412 Precondition Failed");
            reveal_strlit("413 Content Too Large");
            reveal_strlit("414 URI Too Long");
            reveal_strlit("415 Unsupported Media Type");
            reveal_strlit("416 Range Not Satisfiable");
            reveal_strlit("417 Expectation Failed");
            reveal_strlit("418 I'm a teapot");
            reveal_strlit("421 Misdirected Request");
            reveal_strlit("422 Unprocessable Entity");
            reveal_strlit("423 Locked");
            reveal_strlit("424 Failed Dependency");
            reveal_strlit("425 Too Early");
            reveal_strlit("426 Upgrade Required");
            reveal_strlit("428 Precondition Required");
            reveal_strlit("429 Too Many Requests");
            reveal_strlit("431 Request Header Fields Too Large");
            reveal_strlit("451 Unavailable For Legal Reasons");
            reveal_strlit("500 Internal Server Error");
            reveal_strlit("501 Not Implemented");
            reveal_strlit("502 Bad Gateway");
            reveal_strlit("503 Service Unavailable");
            reveal_strlit("504 Gateway Timeout");
            reveal_strlit("505 HTTP Version Not Supported");
            reveal_strlit("506 Variant Also Negotiates");
            reveal_strlit("507 Insufficient Storage");
            reveal_strlit("508 Loop Detected");
            reveal_strlit("510 Not Extended");
            reveal_strlit("511 Network Authentication Required");
        }
        match self {
            Status::Continue100 => status_names::CONTINUE_100,
            Status::SwitchingProtocols101 => status_names::SWITCHING_PROTOCOLS_101,
            Status::Processing102 => status_names::PROCESSING_102,
            Status::EarlyHints103 => status_names::EARLY_HINTS_103,
            Status::Ok200 => status_names::OK_200,
            Status::Created201 => status_names::CREATED_201,
            Status::Accepted202 => status_names::ACCEPTED_202,
            Status::NonAuthoritativeInformation203 => status_names::NON_AUTHORITATIVE_INFORMATION_203,
            Status::NoContent204 => status_names::NO_CONTENT_204,
            Status::ResetContent205 => status_names::RESET_CONTENT_205,
            Status::PartialContent206 => status_names::PARTIAL_CONTENT_206,
            Status::MultiStatus207 => status_names::MULTI_STATUS_207,
            Status::AlreadyReported208 => status_names::ALREADY_REPORTED_208,
            Status::ImUsed226 => status_names::IM_USED_226,
            Status::MultipleChoices300 => status_names::MULTIPLE_CHOICES_300,
            Status::MovedPermanently301 => status_names::MOVED_PERMANENTLY_301,
            Status::Found302 => status_names::FOUND_302,
            Status::SeeOther303 => status_names::SEE_OTHER_303,
            Status::NotModified304 => status_names::NOT_MODIFIED_304,
            Status::UseProxy305 => status_names::USE_PROXY_305,
            Status::TemporaryRedirect307 => status_names::TEMPORARY_REDIRECT_307,
            Status::PermanentRedirect308 => status_names::PERMANENT_REDIRECT_308,
            Status::BadRequest400 => status_names::BAD_REQUEST_400,
            Status::Unauthorized401 => status_names::UNAUTHORIZED_401,
            Status::PaymentRequired402 => status_names::PAYMENT_REQUIRED_402,
            Status::Forbidden403 => status_names::FORBIDDEN_403,
            Status::NotFound404 => status_names::NOT_FOUND_404,
            Status::MethodNotAllowed405 => status_names::METHOD_NOT_ALLOWED_405,
            Status::NotAcceptable406 => status_names::NOT_ACCEPTABLE_406,
            Status::ProxyAuthenticationRequired407 => status_names::PROXY_AUTHENTICATION_REQUIRED_407,
            Status::RequestTimeout408 => status_names::REQUEST_TIMEOUT_408,
            Status::Conflict409 => status_names::CONFLICT_409,
            Status::Gone410 => status_names::GONE_410,
            Status::LengthRequired411 => status_names::LENGTH_REQUIRED_411,
            Status::PreconditionFailed412 => status_names::PRECONDITION_FAILED_412,
            Status::ContentTooLarge413 => status_names::CONTENT_TOO_LARGE_413,
            Status::UriTooLong414 => status_names::URI_TOO_LONG_414,
            Status::UnsupportedMediaType415 => status_names::UNSUPPORTED_MEDIA_TYPE_415,
            Status::RangeNotSatisfiable416 => status_names::RANGE_NOT_SATISFIABLE_416,
            Status::ExpectationFailed417 => status_names::EXPECTATION_FAILED_417,
            Status::ImATeapot418 => status_names::IM_A_TEAPOT_418,
            Status::MisdirectedRequest421 => status_names::MISDIRECTED_REQUEST_421,
            Status::UnprocessableEntity422 => status_names::UNPROCESSABLE_ENTITY_422,
            Status::Locked423 => status_names::LOCKED_423,
            Status::FailedDependency424 => status_names::FAILED_DEPENDENCY_424,
            Status::TooEarly425 => status_names::TOO_EARLY_425,
            Status::UpgradeRequired426 => status_names::UPGRADE_REQUIRED_426,
            Status::PreconditionRequired428 => status_names::PRECONDITION_REQUIRED_428,
            Status::TooManyRequests429 => status_names::TOO_MANY_REQUESTS_429,
            Status::RequestHeaderFieldsTooLarge431 => status_names::REQUEST_HEADER_FIELDS_TOO_LARGE_431,
            Status::UnavailableForLegalReasons451 => status_names::UNAVAILABLE_FOR_LEGAL_REASONS_451,
            Status::InternalServerError500 => status_names::INTERNAL_SERVER_ERROR_500,
            Status::NotImplemented501 => status_names::NOT_IMPLEMENTED_501,
            Status::BadGateway502 => status_names::BAD_GATEWAY_502,
            Status::ServiceUnavailable503 => status_names::SERVICE_UNAVAILABLE_503,
            Status::GatewayTimeout504 => status_names::GATEWAY_TIMEOUT_504,
            Status::HttpVersionNotSupported505 => status_names::HTTP_VERSION_NOT_SUPPORTED_505,
            Status::VariantAlsoNegotiates506 => status_names::VARIANT_ALSO_NEGOTIATES_506,
            Status::InsufficientStorage507 => status_names::INSUFFICIENT_STORAGE_507,
            Status::LoopDetected508 => status_names::LOOP_DETECTED_508,
            Status::NotExtended510 => status_names::NOT_EXTENDED_510,
            Status::NetworkAuthenticationRequired511 => status_names::NETWORK_AUTHENTICATION_REQUIRED_511,
        }
    }

    /// The numeric code.
    pub fn as_u16(&self) -> (r: u16)
        ensures
            r == self.code(),
    {
        match self {
            Status::Continue100 => status_ordinals::CONTINUE_100,
            Status::SwitchingProtocols101 => status_ordinals::SWITCHING_PROTOCOLS_101,
            Status::Processing102 => status_ordinals::PROCESSING_102,
            Status::EarlyHints103 => status_ordinals::EARLY_HINTS_103,
            Status::Ok200 => status_ordinals::OK_200,
            Status::Created201 => status_ordinals::CREATED_201,
            Status::Accepted202 => status_ordinals::ACCEPTED_202,
            Status::NonAuthoritativeInformation203 => status_ordinals::NON_AUTHORITATIVE_INFORMATION_203,
            Status::NoContent204 => status_ordinals::NO_CONTENT_204,
            Status::ResetContent205 => status_ordinals::RESET_CONTENT_205,
            Status::PartialContent206 => status_ordinals::PARTIAL_CONTENT_206,
            Status::MultiStatus207 => status_ordinals::MULTI_STATUS_207,
            Status::AlreadyReported208 => status_ordinals::ALREADY_REPORTED_208,
            Status::ImUsed226 => status_ordinals::IM_USED_226,
            Status::MultipleChoices300 => status_ordinals::MULTIPLE_CHOICES_300,
            Status::MovedPermanently301 => status_ordinals::MOVED_PERMANENTLY_301,
            Status::Found302 => status_ordinals::FOUND_302,
            Status::SeeOther303 => status_ordinals::SEE_OTHER_303,
            Status::NotModified304 => status_ordinals::NOT_MODIFIED_304,
            Status::UseProxy305 => status_ordinals::USE_PROXY_305,
            Status::TemporaryRedirect307 => status_ordinals::TEMPORARY_REDIRECT_307,
            Status::PermanentRedirect308 => status_ordinals::PERMANENT_REDIRECT_308,
            Status::BadRequest400 => status_ordinals::BAD_REQUEST_400,
            Status::Unauthorized401 => status_ordinals::UNAUTHORIZED_401,
            Status::PaymentRequired402 => status_ordinals::PAYMENT_REQUIRED_402,
            Status::Forbidden403 => status_ordinals::FORBIDDEN_403,
            Status::NotFound404 => status_ordinals::NOT_FOUND_404,
            Status::MethodNotAllowed405 => status_ordinals::METHOD_NOT_ALLOWED_405,
            Status::NotAcceptable406 => status_ordinals::NOT_ACCEPTABLE_406,
            Status::ProxyAuthenticationRequired407 => status_ordinals::PROXY_AUTHENTICATION_REQUIRED_407,
            Status::RequestTimeout408 => status_ordinals::REQUEST_TIMEOUT_408,
            Status::Conflict409 => status_ordinals::CONFLICT_409,
            Status::Gone410 => status_ordinals::GONE_410,
            Status::LengthRequired411 => status_ordinals::LENGTH_REQUIRED_411,
            Status::PreconditionFailed412 => status_ordinals::PRECONDITION_FAILED_412,
            Status::ContentTooLarge413 => status_ordinals::CONTENT_TOO_LARGE_413,
            Status::UriTooLong414 => status_ordinals::URI_TOO_LONG_414,
            Status::UnsupportedMediaType415 => status_ordinals::UNSUPPORTED_MEDIA_TYPE_415,
            Status::RangeNotSatisfiable416 => status_ordinals::RANGE_NOT_SATISFIABLE_416,
            Status::ExpectationFailed417 => status_ordinals::EXPECTATION_FAILED_417,
            Status::ImATeapot418 => status_ordinals::IM_A_TEAPOT_418,
            Status::MisdirectedRequest421 => status_ordinals::MISDIRECTED_REQUEST_421,
            Status::UnprocessableEntity422 => status_ordinals::UNPROCESSABLE_ENTITY_422,
            Status::Locked423 => status_ordinals::LOCKED_423,
            Status::FailedDependency424 => status_ordinals::FAILED_DEPENDENCY_424,
            Status::TooEarly425 => status_ordinals::TOO_EARLY_425,
            Status::UpgradeRequired426 => status_ordinals::UPGRADE_REQUIRED_426,
            Status::PreconditionRequired428 => status_ordinals::PRECONDITION_REQUIRED_428,
            Status::TooManyRequests429 => status_ordinals::TOO_MANY_REQUESTS_429,
            Status::RequestHeaderFieldsTooLarge431 => status_ordinals::REQUEST_HEADER_FIELDS_TOO_LARGE_431,
            Status::UnavailableForLegalReasons451 => status_ordinals::UNAVAILABLE_FOR_LEGAL_REASONS_451,
            Status::InternalServerError500 => status_ordinals::INTERNAL_SERVER_ERROR_500,
            Status::NotImplemented501 => status_ordinals::NOT_IMPLEMENTED_501,
            Status::BadGateway502 => status_ordinals::BAD_GATEWAY_502,
            Status::ServiceUnavailable503 => status_ordinals::SERVICE_UNAVAILABLE_503,
            Status::GatewayTimeout504 => status_ordinals::GATEWAY_TIMEOUT_504,
            Status::HttpVersionNotSupported505 => status_ordinals::HTTP_VERSION_NOT_SUPPORTED_505,
            Status::VariantAlsoNegotiates506 => status_ordinals::VARIANT_ALSO_NEGOTIATES_506,
            Status::InsufficientStorage507 => status_ordinals::INSUFFICIENT_STORAGE_507,
            Status::LoopDetected508 => status_ordinals::LOOP_DETECTED_508,
            Status::NotExtended510 => status_ordinals::NOT_EXTENDED_510,
            Status::NetworkAuthenticationRequired511 => status_ordinals::NETWORK_AUTHENTICATION_REQUIRED_511,
        }
    }
}

/// Parsing the text of a status gives the status back.
pub proof fn lemma_status_parse_text(s: Status)
    ensures
        parse_status(s.text()) == Some(s),
{
    lemma_ci_eq_equivalence(s.text(), s.text(), s.text());
    let c = choose|x: Status| ci_eq(s.text(), #[trigger] x.text());
    lemma_status_text_unique(s, c);
}

/// Looking up the code of a status gives the status back.
pub proof fn lemma_status_parse_code(s: Status)
    ensures
        status_of_code(s.code()) == Some(s),
{
}

} // verus!
