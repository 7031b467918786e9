//! The wire format as mathematics: what the bytes at the front of a buffer
//! mean, stated over sequences and independent of any cursor.

use crate::token::{Encoding, TokenView};
use vstd::prelude::*;
use vstd::utf8::{decode_utf8, valid_utf8};

verus! {

/// The major type of a header byte: its top three bits.
pub open spec fn major_type(header: u8) -> int {
    header as int / 32
}

/// The additional information of a header byte: its low five bits.
pub open spec fn additional_info(header: u8) -> int {
    header as int % 32
}

/// The number of bytes after the header that hold its argument.
pub open spec fn argument_len(info: int) -> nat {
    if info == 24 {
        1
    } else if info == 25 {
        2
    } else if info == 26 {
        4
    } else if info == 27 {
        8
    } else {
        0
    }
}

/// The encoding that an additional information of at most 27 stands for.
pub open spec fn argument_encoding(info: int) -> Encoding {
    if info == 24 {
        Encoding::OneByte
    } else if info == 25 {
        Encoding::TwoBytes
    } else if info == 26 {
        Encoding::FourBytes
    } else if info == 27 {
        Encoding::EightBytes
    } else {
        Encoding::SameByte
    }
}

/// The number that `bytes` spell in base 256, most significant byte first.
pub open spec fn big_endian(bytes: Seq<u8>) -> nat
    decreases bytes.len(),
{
    if bytes.len() == 0 {
        0
    } else {
        big_endian(bytes.drop_last()) * 256 + bytes.last() as nat
    }
}

/// The number that `bytes` spell is below 256 to the power of their count.
pub proof fn lemma_big_endian_bound(bytes: Seq<u8>)
    ensures
        big_endian(bytes) < vstd::arithmetic::power::pow(256, bytes.len()),
    decreases bytes.len(),
{
    reveal(vstd::arithmetic::power::pow);
    if bytes.len() > 0 {
        lemma_big_endian_bound(bytes.drop_last());
    }
}

/// The argument of a header with additional information `info`, read from
/// the bytes `rest` that follow the header, with the way it is encoded: the
/// additional information itself up to 23, the big-endian number at the
/// front of `rest` for 24 to 27. There is none where `rest` is too short
/// for that number, nor for an additional information above 27.
pub open spec fn argument(info: int, rest: Seq<u8>) -> Option<(u64, Encoding)> {
    let len = argument_len(info);
    if info <= 23 {
        Some((info as u64, Encoding::SameByte))
    } else if info <= 27 && len <= rest.len() {
        Some((big_endian(rest.take(len as int)) as u64, argument_encoding(info)))
    } else {
        None
    }
}

/// What one decoding step does to a buffer.
pub struct Step {
    /// The token at the front of the buffer, or `None` where the bytes there
    /// are no well-formed item.
    pub token: Option<TokenView>,
    /// How far the step moves the cursor, the header byte included. For a
    /// token this is the length of its item: header, argument and payload.
    pub consumed: nat,
}

/// The step for an item of major type 7: a simple value, a floating-point
/// number or the stop code.
pub open spec fn decode_simple(info: int, rest: Seq<u8>) -> Step {
    if info == 31 {
        Step { token: Some(TokenView::Stop), consumed: 1 }
    } else {
        match argument(info, rest) {
            None => Step { token: None, consumed: 1 },
            Some((value, _)) => {
                let token = if info == 20 {
                    TokenView::Bool(false)
                } else if info == 21 {
                    TokenView::Bool(true)
                } else if info == 22 {
                    TokenView::Null
                } else if info == 23 {
                    TokenView::Undefined
                } else if info == 25 {
                    TokenView::Half(value as u16)
                } else if info == 26 {
                    TokenView::Single(value as u32)
                } else if info == 27 {
                    TokenView::Double(value)
                } else {
                    TokenView::SimpleValue(value as u8)
                };
                Step { token: Some(token), consumed: 1 + argument_len(info) }
            },
        }
    }
}

/// The step for a header of major type 2 to 5 that announces an item of
/// unknown length, or of major type 0, 1 or 6, where that form means nothing.
pub open spec fn decode_indefinite(major: int) -> Step {
    if major == 2 {
        Step { token: Some(TokenView::StartBytes), consumed: 1 }
    } else if major == 3 {
        Step { token: Some(TokenView::StartText), consumed: 1 }
    } else if major == 4 {
        Step { token: Some(TokenView::StartArray(None)), consumed: 1 }
    } else if major == 5 {
        Step { token: Some(TokenView::StartMap(None)), consumed: 1 }
    } else {
        Step { token: None, consumed: 1 }
    }
}

/// The step for a string whose header and argument take `start` bytes and
/// announce a payload of `len` bytes, to be found at the front of `body`.
/// Where `body` is too short for the payload the cursor stays at its start;
/// text that is not UTF-8 is recognised only after its payload was passed.
pub open spec fn decode_string(
    text: bool,
    start: nat,
    len: u64,
    encoding: Encoding,
    body: Seq<u8>,
) -> Step {
    let payload = body.take(len as int);
    if len > body.len() {
        Step { token: None, consumed: start }
    } else if !text {
        Step { token: Some(TokenView::Bytes(payload, encoding)), consumed: start + len as nat }
    } else if valid_utf8(payload) {
        Step {
            token: Some(TokenView::Text(decode_utf8(payload), encoding)),
            consumed: start + len as nat,
        }
    } else {
        Step { token: None, consumed: start + len as nat }
    }
}

/// The step for the item that begins with the byte `header` and goes on in
/// `rest`.
pub open spec fn decode_item(header: u8, rest: Seq<u8>) -> Step {
    let major = major_type(header);
    let info = additional_info(header);
    let len = argument_len(info);
    if major == 7 {
        decode_simple(info, rest)
    } else if info == 31 {
        decode_indefinite(major)
    } else {
        match argument(info, rest) {
            None => Step { token: None, consumed: 1 },
            Some((value, encoding)) => {
                if major == 0 {
                    Step { token: Some(TokenView::Unsigned(value, encoding)), consumed: 1 + len }
                } else if major == 1 {
                    Step { token: Some(TokenView::Negative(value, encoding)), consumed: 1 + len }
                } else if major == 2 {
                    decode_string(false, 1 + len, value, encoding, rest.skip(len as int))
                } else if major == 3 {
                    decode_string(true, 1 + len, value, encoding, rest.skip(len as int))
                } else if major == 4 {
                    Step {
                        token: Some(TokenView::StartArray(Some((value, encoding)))),
                        consumed: 1 + len,
                    }
                } else if major == 5 {
                    Step {
                        token: Some(TokenView::StartMap(Some((value, encoding)))),
                        consumed: 1 + len,
                    }
                } else {
                    Step { token: Some(TokenView::Tag(value)), consumed: 1 + len }
                }
            },
        }
    }
}

/// One decoding step on a buffer that is not empty: the token at its front
/// and the length of the item, or no token and the number of bytes that were
/// passed before the fault showed.
pub open spec fn decode(input: Seq<u8>) -> Step
    recommends
        input.len() > 0,
{
    decode_item(input[0], input.skip(1))
}

/// Every step on a buffer that is not empty moves forward, and never past
/// the end of the buffer.
pub proof fn lemma_decode_consumed(input: Seq<u8>)
    requires
        input.len() > 0,
    ensures
        1 <= decode(input).consumed <= input.len(),
{
}

/// The tokens of a whole buffer, in order: `None` where decoding meets a
/// fault before the buffer is used up.
pub open spec fn decode_all(input: Seq<u8>) -> Option<Seq<TokenView>>
    decreases input.len(),
{
    if input.len() == 0 {
        Some(Seq::empty())
    } else {
        let step = decode(input);
        match (step.token, decode_all(input.skip(step.consumed as int))) {
            (Some(token), Some(rest)) => Some(seq![token] + rest),
            _ => None,
        }
    }
}

} // verus!
