//! A codec for the IMAP4rev1 wire format: parsers from bytes to typed
//! messages, encoders from typed messages back to bytes, and the laws that
//! tie the two together.
//!
//! Every parser comes with a mathematical description of the grammar rule it
//! implements (a `spec_*` function over `Seq<u8>`), and its contract says that
//! it computes exactly what that description yields.

pub mod codec;
pub mod error;
pub mod lex;
pub mod number;
pub mod strings;
pub mod list;
pub mod auth;
pub mod flag;
pub mod envelope;
pub mod body;
pub mod datetime;
pub mod section;
pub mod fetch;
pub mod status;
pub mod quota;
pub mod mailbox;
pub mod response;
pub mod extensions;
pub mod sequence;
pub mod driver;
pub mod fragment;
pub mod theorems;
