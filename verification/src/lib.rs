//! A small HTTP/1.1 server library.
//!
//! Its core is an incremental request reader with fixed resource limits: a
//! state machine over bytes that turns a stream arriving in arbitrary
//! fragments into a request, and a validator that checks what the request
//! means at the checkpoint between headers and body. Around the core stand
//! the request and response models, the handlers that build responses, and
//! the step that a network layer takes for every chunk of bytes it receives.
//!
//! The library performs no I/O. Sockets, files, the clock and the
//! configuration file belong to the program that uses it.
//!
//! - [`bytes`] and [`decimal`]: byte strings, the character classes of the
//!   header grammar, and lengths as text.
//! - [`config`]: the limits and names that everything else reads.
//! - [`http`]: the reader, the validator, the models, and the theorems about
//!   the reader.
//! - [`handler`]: routing, pages, static files and compression.
//! - [`net`]: what to do with the bytes that arrived on a connection.

pub mod bytes;
pub mod config;
pub mod decimal;
pub mod handler;
pub mod http;
pub mod net;
