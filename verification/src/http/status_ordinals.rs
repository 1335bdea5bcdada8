//! The numeric status codes.
use vstd::prelude::*;

verus! {

pub const CONTINUE_100: u16 = 100;

pub const SWITCHING_PROTOCOLS_101: u16 = 101;

pub const PROCESSING_102: u16 = 102;

pub const EARLY_HINTS_103: u16 = 103;

pub const OK_200: u16 = 200;

pub const CREATED_201: u16 = 201;

pub const ACCEPTED_202: u16 = 202;

pub const NON_AUTHORITATIVE_INFORMATION_203: u16 = 203;

pub const NO_CONTENT_204: u16 = 204;

pub const RESET_CONTENT_205: u16 = 205;

pub const PARTIAL_CONTENT_206: u16 = 206;

pub const MULTI_STATUS_207: u16 = 207;

pub const ALREADY_REPORTED_208: u16 = 208;

pub const IM_USED_226: u16 = 226;

pub const MULTIPLE_CHOICES_300: u16 = 300;

pub const MOVED_PERMANENTLY_301: u16 = 301;

pub const FOUND_302: u16 = 302;

pub const SEE_OTHER_303: u16 = 303;

pub const NOT_MODIFIED_304: u16 = 304;

pub const USE_PROXY_305: u16 = 305;

pub const TEMPORARY_REDIRECT_307: u16 = 307;

pub const PERMANENT_REDIRECT_308: u16 = 308;

pub const BAD_REQUEST_400: u16 = 400;

pub const UNAUTHORIZED_401: u16 = 401;

pub const PAYMENT_REQUIRED_402: u16 = 402;

pub const FORBIDDEN_403: u16 = 403;

pub const NOT_FOUND_404: u16 = 404;

pub const METHOD_NOT_ALLOWED_405: u16 = 405;

pub const NOT_ACCEPTABLE_406: u16 = 406;

pub const PROXY_AUTHENTICATION_REQUIRED_407: u16 = 407;

pub const REQUEST_TIMEOUT_408: u16 = 408;

pub const CONFLICT_409: u16 = 409;

pub const GONE_410: u16 = 410;

pub const LENGTH_REQUIRED_411: u16 = 411;

pub const PRECONDITION_FAILED_412: u16 = 412;

pub const CONTENT_TOO_LARGE_413: u16 = 413;

pub const URI_TOO_LONG_414: u16 = 414;

pub const UNSUPPORTED_MEDIA_TYPE_415: u16 = 415;

pub const RANGE_NOT_SATISFIABLE_416: u16 = 416;

pub const EXPECTATION_FAILED_417: u16 = 417;

pub const IM_A_TEAPOT_418: u16 = 418;

pub const MISDIRECTED_REQUEST_421: u16 = 421;

pub const UNPROCESSABLE_ENTITY_422: u16 = 422;

pub const LOCKED_423: u16 = 423;

pub const FAILED_DEPENDENCY_424: u16 = 424;

pub const TOO_EARLY_425: u16 = 425;

pub const UPGRADE_REQUIRED_426: u16 = 426;

pub const PRECONDITION_REQUIRED_428: u16 = 428;

pub const TOO_MANY_REQUESTS_429: u16 = 429;

pub const REQUEST_HEADER_FIELDS_TOO_LARGE_431: u16 = 431;

pub const UNAVAILABLE_FOR_LEGAL_REASONS_451: u16 = 451;

pub const INTERNAL_SERVER_ERROR_500: u16 = 500;

pub const NOT_IMPLEMENTED_501: u16 = 501;

pub const BAD_GATEWAY_502: u16 = 502;

pub const SERVICE_UNAVAILABLE_503: u16 = 503;

pub const GATEWAY_TIMEOUT_504: u16 = 504;

pub const HTTP_VERSION_NOT_SUPPORTED_505: u16 = 505;

pub const VARIANT_ALSO_NEGOTIATES_506: u16 = 506;

pub const INSUFFICIENT_STORAGE_507: u16 = 507;

pub const LOOP_DETECTED_508: u16 = 508;

pub const NOT_EXTENDED_510: u16 = 510;

pub const NETWORK_AUTHENTICATION_REQUIRED_511: u16 = 511;

} // verus!
