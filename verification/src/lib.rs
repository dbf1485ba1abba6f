//! A verified core for serving static files over HTTP: path sanitizing,
//! pre-compressed variant negotiation, conditional and range requests, and
//! the streaming bodies that carry the answer.
pub mod bytestr;
pub mod encoding;
pub mod body;
pub mod range;
pub mod requested_path;
pub mod resolve;
pub mod response;
pub mod service;
pub mod stream;
pub mod vfs;
