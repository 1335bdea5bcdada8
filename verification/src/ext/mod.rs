//! Ready-made responses.
pub mod responses;
