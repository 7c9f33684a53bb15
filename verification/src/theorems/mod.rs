//! What holds of the grammar and the encoder together: values that are
//! written and read back, the bound on nesting, and the framing of
//! literals.

pub mod keywords;
pub mod lex;
pub mod strings;
pub mod list;
pub mod flag;
pub mod sequence;
pub mod mailbox;
pub mod response;
pub mod status;
pub mod datetime;
pub mod envelope;
pub mod section;
pub mod params;
pub mod extension;
pub mod tails;
pub mod media;
pub mod fields;
pub mod body;
pub mod structure;
pub mod items;
pub mod fetch;
pub mod data;
pub mod listing;
pub mod untagged;
pub mod continuation;
pub mod line;
pub mod stream;
pub mod driver;
