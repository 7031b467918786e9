//! A pull tokenizer for CBOR: it walks a byte buffer and hands out one token
//! per item header, without building values and without copying payloads.
//!
//! [`format`] says what the bytes of a buffer mean, [`parser`] holds the
//! cursor that decodes them and is proved to do what [`format`] says, and
//! [`laws`] holds what follows for every buffer. Floating-point items come
//! out as their bit patterns.

pub mod error;
pub mod format;
pub mod laws;
pub mod parser;
pub mod text;
pub mod token;

pub use crate::error::{Error, Result};
pub use crate::parser::Parser;
pub use crate::token::{Encoding, Token, TokenView};
