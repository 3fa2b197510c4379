//! A relay for live animated-image streams.
//!
//! The crate holds the frame-aligned streaming buffer that turns an
//! arbitrarily chunked GIF byte stream into whole frames addressed by a
//! cursor, together with the decisions that surround it.

pub mod endpoint;
pub mod laws;
pub mod lemmas;
pub mod model;
pub mod rendition;
pub mod route;
pub mod session;
pub mod source;
pub mod stream;
