//! A static-content HTTP server library: an HTTP/2 frame codec over bytes,
//! an HTTP/1.1 request parser, a response writer, and the content-selection
//! rules that the serving loop follows.
pub mod bytes;
pub mod flags;
pub mod frames;
pub mod codec;
pub mod laws;
pub mod time;
pub mod http;
pub mod content;
pub mod handlers;
