//! Core of a small HTTP/1.1 server framework: a first-match regex router,
//! a response model with a wire encoder, and a per-connection service that
//! ties the two together.

pub mod buffer;
pub mod pattern;
pub mod response;
pub mod router;
pub mod service;
