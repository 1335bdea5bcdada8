//! HTTP/1.x message types: case-insensitive strings, methods, versions, status codes,
//! header maps, request parsing and response serialisation.
pub mod cibstr;
pub mod cistr;
pub mod error;
pub mod headers;
pub mod method;
pub mod method_names;
pub mod pub_util;
pub mod request;
pub mod response;
pub mod status;
pub mod status_names;
pub mod status_ordinals;
pub mod version;
pub mod version_names;

