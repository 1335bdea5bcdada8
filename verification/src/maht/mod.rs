//! The byte-oriented variant of the message types: byte strings, byte-slice searching, and
//! header blocks read from raw bytes.
pub mod byte_string;
pub mod error;
pub mod headers;
pub mod request;
pub mod util;
pub mod response;
