//! The status lines' texts, code and reason phrase, as a response writes them.
use vstd::prelude::*;

verus! {

pub const CONTINUE_100: &'static str = "100 Continue";

pub const SWITCHING_PROTOCOLS_101: &'static str = "101 Switching Protocols";

pub const PROCESSING_102: &'static str = "102 Processing";

pub const EARLY_HINTS_103: &'static str = "103 Early Hints";

pub const OK_200: &'static str = "200 OK";

pub const CREATED_201: &'static str = "201 Created";

pub const ACCEPTED_202: &'static str = "202 Accepted";

pub const NON_AUTHORITATIVE_INFORMATION_203: &'static str = "203 Non-Authoritative Information";

pub const NO_CONTENT_204: &'static str = "204 No Content";

pub const RESET_CONTENT_205: &'static str = "205 Reset Content";

pub const PARTIAL_CONTENT_206: &'static str = "206 Partial Content";

pub const MULTI_STATUS_207: &'static str = "207 Multi-Status";

pub const ALREADY_REPORTED_208: &'static str = "208 Already Reported";

pub const IM_USED_226: &'static str = "226 IM Used";

pub const MULTIPLE_CHOICES_300: &'static str = "300 Multiple Choices";

pub const MOVED_PERMANENTLY_301: &'static str = "301 Moved Permanently";

pub const FOUND_302: &'static str = "302 Found";

pub const SEE_OTHER_303: &'static str = "303 See Other";

pub const NOT_MODIFIED_304: &'static str = "304 Not Modified";

pub const USE_PROXY_305: &'static str = "305 Use Proxy";

pub const TEMPORARY_REDIRECT_307: &'static str = "307 Temporary Redirect";

pub const PERMANENT_REDIRECT_308: &'static str = "308 Permanent Redirect";

pub const BAD_REQUEST_400: &'static str = "400 Bad Request";

pub const UNAUTHORIZED_401: &'static str = "401 Unauthorized";

pub const PAYMENT_REQUIRED_402: &'static str = "402 Payment Required";

pub const FORBIDDEN_403: &'static str = "403 Forbidden";

pub const NOT_FOUND_404: &'static str = "404 Not Found";

pub const METHOD_NOT_ALLOWED_405: &'static str = "405 Method Not Allowed";

pub const NOT_ACCEPTABLE_406: &'static str = "406 Not Acceptable";

pub const PROXY_AUTHENTICATION_REQUIRED_407: &'static str = "407 Proxy Authentication Required";

pub const REQUEST_TIMEOUT_408: &'static str = "408 Request Timeout";

pub const CONFLICT_409: &'static str = "409 Conflict";

pub const GONE_410: &'static str = "410 Gone";

pub const LENGTH_REQUIRED_411: &'static str = "411 Length Required";

pub const PRECONDITION_FAILED_412: &'static str = "412 Precondition Failed";

pub const CONTENT_TOO_LARGE_413: &'static str = "413 Content Too Large";

pub const URI_TOO_LONG_414: &'static str = "414 URI Too Long";

pub const UNSUPPORTED_MEDIA_TYPE_415: &'static str = "415 Unsupported Media Type";

pub const RANGE_NOT_SATISFIABLE_416: &'static str = "416 Range Not Satisfiable";

pub const EXPECTATION_FAILED_417: &'static str = "417 Expectation Failed";

pub const IM_A_TEAPOT_418: &'static str = "418 I'm a teapot";

pub const MISDIRECTED_REQUEST_421: &'static str = "421 Misdirected Request";

pub const UNPROCESSABLE_ENTITY_422: &'static str = "422 Unprocessable Entity";

pub const LOCKED_423: &'static str = "423 Locked";

pub const FAILED_DEPENDENCY_424: &'static str = "424 Failed Dependency";

pub const TOO_EARLY_425: &'static str = "425 Too Early";

pub const UPGRADE_REQUIRED_426: &'static str = "426 Upgrade Required";

pub const PRECONDITION_REQUIRED_428: &'static str = "428 Precondition Required";

pub const TOO_MANY_REQUESTS_429: &'static str = "429 Too Many Requests";

pub const REQUEST_HEADER_FIELDS_TOO_LARGE_431: &'static str = "431 Request Header Fields Too Large";

pub const UNAVAILABLE_FOR_LEGAL_REASONS_451: &'static str = "451 Unavailable For Legal Reasons";

pub const INTERNAL_SERVER_ERROR_500: &'static str = "500 Internal Server Error";

pub const NOT_IMPLEMENTED_501: &'static str = "501 Not Implemented";

pub const BAD_GATEWAY_502: &'static str = "502 Bad Gateway";

pub const SERVICE_UNAVAILABLE_503: &'static str = "503 Service Unavailable";

pub const GATEWAY_TIMEOUT_504: &'static str = "504 Gateway Timeout";

pub const HTTP_VERSION_NOT_SUPPORTED_505: &'static str = "505 HTTP Version Not Supported";

pub const VARIANT_ALSO_NEGOTIATES_506: &'static str = "506 Variant Also Negotiates";

pub const INSUFFICIENT_STORAGE_507: &'static str = "507 Insufficient Storage";

pub const LOOP_DETECTED_508: &'static str = "508 Loop Detected";

pub const NOT_EXTENDED_510: &'static str = "510 Not Extended";

pub const NETWORK_AUTHENTICATION_REQUIRED_511: &'static str = "511 Network Authentication Required";

} // verus!
