//! A bidirectional codec for the IMAP4 wire protocol.
//!
//! The decoder turns wire bytes into typed commands, responses and greetings,
//! working incrementally: it distinguishes "more bytes needed" from
//! "permanently invalid" from "blocked on a literal continuation".  The
//! encoder turns typed messages back into an ordered sequence of output
//! fragments, separating plain lines from literal payloads that must wait
//! for the peer's continuation.

pub mod body;
pub mod chars;
pub mod codec;
pub mod encode;
pub mod command;
pub mod datetime;
pub mod envelope;
pub mod code;
pub mod flag;
pub mod frame;
pub mod greeting;
pub mod kw;
pub mod message;
pub mod props;
pub mod response;
pub mod section;
pub mod tok;
pub mod types;
pub mod viable;
