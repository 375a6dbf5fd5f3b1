//! The verified core of a small Gemini API client.
//!
//! Everything the client decides stands here: how keys are masked and errors
//! described, which failures move on to the next key, what the file cache
//! answers, which requests are sent and how the replies are read. Sockets,
//! files, clocks and threads belong to the application around this crate.

pub mod ask;
pub mod config;
pub mod failure;
pub mod files;
pub mod json;
pub mod keys;
pub mod mask;
pub mod mime;
pub mod preflight;
pub mod preparation;
pub mod reading;
pub mod registry;
pub mod reply;
pub mod request;
pub mod sse;
pub mod stream;
pub mod text;
