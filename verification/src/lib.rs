//! Decoder for ULog flight logs: a length-prefixed, self-describing stream of
//! messages, turned into typed records.
//!
//! The input is untrusted. Every read is bounds-checked, no input makes the
//! decoder panic, and what cannot be decoded is either handed out as raw
//! bytes or reported as an error; nothing is dropped in silence.
//!
//! The modules, leaves first:
//!
//! - [`wire`]: little-endian numbers, defined arithmetically;
//! - [`errors`]: the ways in which decoding can stop;
//! - [`reader`]: the byte source, borrowed (zero-copy) or owned;
//! - [`message_buf`]: the bounds-checked cursor over one payload;
//! - [`field_helpers`]: scalar and array decoding, element by element or in
//!   bulk, with the proof that both give the same values;
//! - [`frame`]: the stream header and the framing of messages, with the
//!   proof that framing is lossless;
//! - [`format`]: format definitions and their grammar;
//! - [`value`]: typed field values and decoding by a declared layout;
//! - [`allow_list`]: the names of the subscriptions to decode in full;
//! - [`registry`]: the subscriptions of a stream, by message id;
//! - [`message`]: the records that decoding produces;
//! - [`stream`]: what a stream decodes to, as a mathematical model, and what
//!   holds of it;
//! - [`decode`]: decoding one framed message against the tables;
//! - [`parser`]: the pull-based engine;
//! - [`builder`]: configuration of a parser.

pub mod wire;
pub mod errors;
pub mod reader;
pub mod message_buf;
pub mod field_helpers;
pub mod frame;
pub mod format;
pub mod value;
pub mod allow_list;
pub mod registry;
pub mod message;
pub mod stream;
pub mod decode;
pub mod parser;
pub mod builder;
