use crate::error::Error;
use vstd::prelude::*;

verus! {

/// How the argument of an item header was written on the wire.
#[derive(Clone, Copy, Debug, PartialEq, Eq)]
pub enum Encoding {
    /// In the low five bits of the header byte itself.
    SameByte,
    /// In one byte after the header.
    OneByte,
    /// In two bytes after the header, big-endian.
    TwoBytes,
    /// In four bytes after the header, big-endian.
    FourBytes,
    /// In eight bytes after the header, big-endian.
    EightBytes,
}

/// One decoded item header, with its payload where the item is a definite
/// byte or text string. Payloads borrow from the input buffer.
#[derive(Clone, Copy, Debug, PartialEq)]
pub enum Token<'a> {
    /// Major type 0: an unsigned integer.
    Unsigned(u64, Encoding),
    /// Major type 1: a negative integer. The number meant is -1 minus the
    /// value held here.
    Negative(u64, Encoding),
    /// Major type 2: a byte string of known length.
    Bytes(&'a [u8], Encoding),
    /// Major type 3: a text string of known length, checked to be UTF-8.
    Text(&'a str, Encoding),
    /// Major type 6: a tag number. The tagged item is the next token.
    Tag(u64),
    /// A simple value without a variant of its own.
    SimpleValue(u8),
    /// The simple values 20 (`false`) and 21 (`true`).
    Bool(bool),
    /// The simple value 22.
    Null,
    /// The simple value 23.
    Undefined,
    /// A half-precision number, as its IEEE 754 binary16 bit pattern.
    Half(u16),
    /// A single-precision number, as its IEEE 754 binary32 bit pattern.
    Single(u32),
    /// A double-precision number, as its IEEE 754 binary64 bit pattern.
    Double(u64),
    /// Opens a byte string of unknown length: chunks follow, then `Stop`.
    StartBytes,
    /// Opens a text string of unknown length: chunks follow, then `Stop`.
    StartText,
    /// Major type 4: opens an array, with its item count where that is
    /// known; `None` for an array that runs until `Stop`.
    StartArray(Option<(u64, Encoding)>),
    /// Major type 5: opens a map, with its number of key/value pairs where
    /// that is known; `None` for a map that runs until `Stop`.
    StartMap(Option<(u64, Encoding)>),
    /// Closes the nearest open item of unknown length.
    Stop,
}

/// What a token says, variant for variant, with each borrowed payload
/// replaced by its contents: the bytes of a byte string, the characters of
/// a text string.
pub enum TokenView {
    Unsigned(u64, Encoding),
    Negative(u64, Encoding),
    Bytes(Seq<u8>, Encoding),
    Text(Seq<char>, Encoding),
    Tag(u64),
    SimpleValue(u8),
    Bool(bool),
    Null,
    Undefined,
    Half(u16),
    Single(u32),
    Double(u64),
    StartBytes,
    StartText,
    StartArray(Option<(u64, Encoding)>),
    StartMap(Option<(u64, Encoding)>),
    Stop,
}

impl<'a> View for Token<'a> {
    type V = TokenView;

    open spec fn view(&self) -> TokenView {
        match *self {
            Token::Unsigned(value, encoding) => TokenView::Unsigned(value, encoding),
            Token::Negative(value, encoding) => TokenView::Negative(value, encoding),
            Token::Bytes(payload, encoding) => TokenView::Bytes(payload@, encoding),
            Token::Text(payload, encoding) => TokenView::Text(payload@, encoding),
            Token::Tag(value) => TokenView::Tag(value),
            Token::SimpleValue(code) => TokenView::SimpleValue(code),
            Token::Bool(value) => TokenView::Bool(value),
            Token::Null => TokenView::Null,
            Token::Undefined => TokenView::Undefined,
            Token::Half(bits) => TokenView::Half(bits),
            Token::Single(bits) => TokenView::Single(bits),
            Token::Double(bits) => TokenView::Double(bits),
            Token::StartBytes => TokenView::StartBytes,
            Token::StartText => TokenView::StartText,
            Token::StartArray(count) => TokenView::StartArray(count),
            Token::StartMap(count) => TokenView::StartMap(count),
            Token::Stop => TokenView::Stop,
        }
    }
}

/// What a decoding step handed out: the view of its token, or `None` for an
/// error.
pub open spec fn token_of(res: Result<Token<'_>, Error>) -> Option<TokenView> {
    match res {
        Ok(token) => Some(token@),
        Err(_) => None,
    }
}

/// The views of a run of tokens, in the same order.
pub open spec fn token_views(tokens: Seq<Token<'_>>) -> Seq<TokenView> {
    tokens.map_values(|token: Token<'_>| token@)
}

} // verus!
