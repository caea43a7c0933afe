//! Client-side core of a login-session negotiation protocol.
//!
//! A greeting front-end talks to a session-management daemon over a stream
//! socket.  Each message on the wire is a frame: a 4-byte little-endian
//! length prefix followed by that many bytes of UTF-8 JSON text.  This crate
//! holds the parts of the client that are worth proving:
//!
//! * [`protocol`] — the outbound [`protocol::Request`] and inbound
//!   [`protocol::Response`] message types;
//! * [`lexer`] — a verified tolerant lexer for the JSON texts;
//! * [`json`] — each message's canonical JSON text and what any JSON text
//!   denotes, with a verified printer and parser;
//! * [`codec`] — frame assembly and disassembly over the byte stream,
//!   tolerant of partial reads;
//! * [`session`] — the authentication state machine that drives a login
//!   attempt from idle through credential prompts to a ready session.
//!
//! Connecting the socket, reading, writing and the interactive front end are
//! deliberately left to the surrounding application; everything here is a
//! function from plain values to plain values.

pub mod codec;
pub mod json;
pub mod lexer;
pub mod protocol;
pub mod session;
