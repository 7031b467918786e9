//! The tokenizer: a cursor over a byte buffer that decodes one item header
//! per step.

use crate::error::Error;
use crate::format::{
    argument, argument_len, big_endian, decode, decode_all, decode_item, decode_simple,
    lemma_big_endian_bound, lemma_decode_consumed,
};
use crate::token::{token_of, token_views, Encoding, Token};
use vstd::prelude::*;
use vstd::utf8::{decode_utf8, valid_utf8};

verus! {

/// A cursor over the part of a buffer that has not been decoded yet.
pub struct Parser<'a> {
    src: &'a [u8],
}

impl<'a> View for Parser<'a> {
    type V = Seq<u8>;

    /// The bytes from the cursor to the end of the buffer.
    closed spec fn view(&self) -> Seq<u8> {
        self.src@
    }
}

/// The number that at most eight bytes spell, most significant byte first.
fn read_big_endian(bytes: &[u8]) -> (value: u64)
    requires
        bytes@.len() <= 8,
    ensures
        value == big_endian(bytes@),
{
    let mut value: u64 = 0;
    let mut i: usize = 0;
    while i < bytes.len()
        invariant
            i <= bytes@.len() <= 8,
            value == big_endian(bytes@.take(i as int)),
        decreases bytes@.len() - i,
    {
        proof {
            lemma_big_endian_bound(bytes@.take(i as int));
            reveal_with_fuel(vstd::arithmetic::power::pow, 8);
            assert(bytes@.take(i + 1).drop_last() == bytes@.take(i as int));
        }
        value = value * 256 + bytes[i] as u64;
        i += 1;
    }
    assert(bytes@.take(i as int) == bytes@);
    value
}

impl<'a> Parser<'a> {
    /// A cursor at the start of `src`.
    pub fn from_slice(src: &'a [u8]) -> (parser: Parser<'a>)
        ensures
            parser@ == src@,
    {
        Parser { src }
    }

    /// Takes the next `mid` bytes out of the buffer. Where fewer are left,
    /// this fails and the cursor stays.
    pub fn take(&mut self, mid: u64) -> (res: Result<&'a [u8], Error>)
        ensures
            mid <= old(self)@.len() ==> res is Ok && res.unwrap()@ == old(self)@.take(mid as int)
                && final(self)@ == old(self)@.skip(mid as int),
            mid > old(self)@.len() ==> res is Err && final(self)@ == old(self)@,
    {
        if mid > self.src.len() as u64 {
            return Err(Error);
        }
        let (left, right) = self.src.split_at(mid as usize);
        self.src = right;
        Ok(left)
    }

    /// Takes the next `mid` bytes as text. Where fewer are left, this fails
    /// and the cursor stays; where they are no UTF-8, it fails after them.
    pub fn take_text(&mut self, mid: u64) -> (res: Result<&'a str, Error>)
        ensures
            mid > old(self)@.len() ==> res is Err && final(self)@ == old(self)@,
            mid <= old(self)@.len() ==> final(self)@ == old(self)@.skip(mid as int) && (res is Ok
                <==> valid_utf8(old(self)@.take(mid as int))),
            res matches Ok(text) ==> text@ == decode_utf8(old(self)@.take(mid as int)),
    {
        let bytes = self.take(mid)?;
        match core::str::from_utf8(bytes) {
            Ok(text) => {
                proof {
                    vstd::utf8::encode_utf8_decode_utf8(text@);
                }
                Ok(text)
            },
            Err(error) => Err(Error::from(error)),
        }
    }

    /// Takes the next byte.
    pub fn take_u8(&mut self) -> (res: Result<u8, Error>)
        ensures
            old(self)@.len() >= 1 ==> res == Ok::<u8, Error>(old(self)@[0]) && final(self)@ == old(
                self,
            )@.skip(1),
            old(self)@.len() < 1 ==> res is Err && final(self)@ == old(self)@,
    {
        let bytes = self.take(1)?;
        Ok(bytes[0])
    }

    /// Takes the next two bytes as a big-endian number.
    pub fn take_u16(&mut self) -> (res: Result<u16, Error>)
        ensures
            old(self)@.len() >= 2 ==> res == Ok::<u16, Error>(
                big_endian(old(self)@.take(2)) as u16,
            ) && final(self)@ == old(self)@.skip(2),
            old(self)@.len() < 2 ==> res is Err && final(self)@ == old(self)@,
    {
        let bytes = self.take(2)?;
        Ok(read_big_endian(bytes) as u16)
    }

    /// Takes the next four bytes as a big-endian number.
    pub fn take_u32(&mut self) -> (res: Result<u32, Error>)
        ensures
            old(self)@.len() >= 4 ==> res == Ok::<u32, Error>(
                big_endian(old(self)@.take(4)) as u32,
            ) && final(self)@ == old(self)@.skip(4),
            old(self)@.len() < 4 ==> res is Err && final(self)@ == old(self)@,
    {
        let bytes = self.take(4)?;
        Ok(read_big_endian(bytes) as u32)
    }

    /// Takes the next eight bytes as a big-endian number.
    pub fn take_u64(&mut self) -> (res: Result<u64, Error>)
        ensures
            old(self)@.len() >= 8 ==> res == Ok::<u64, Error>(
                big_endian(old(self)@.take(8)) as u64,
            ) && final(self)@ == old(self)@.skip(8),
            old(self)@.len() < 8 ==> res is Err && final(self)@ == old(self)@,
    {
        let bytes = self.take(8)?;
        Ok(read_big_endian(bytes))
    }

    /// Reads the argument that a header with additional information `info`
    /// announces. Where it is missing or cut short the cursor stays.
    fn take_argument(&mut self, info: u8) -> (res: Result<(u64, Encoding), Error>)
        ensures
            match argument(info as int, old(self)@) {
                Some(found) => res == Ok::<(u64, Encoding), Error>(found) && final(self)@ == old(
                    self,
                )@.skip(argument_len(info as int) as int),
                None => res is Err && final(self)@ == old(self)@,
            },
    {
        proof {
            let rest = self@;
            reveal_with_fuel(vstd::arithmetic::power::pow, 5);
            if rest.len() >= 1 {
                reveal_with_fuel(big_endian, 2);
            }
            if rest.len() >= 2 {
                lemma_big_endian_bound(rest.take(2));
            }
            if rest.len() >= 4 {
                lemma_big_endian_bound(rest.take(4));
            }
        }
        if info <= 23 {
            Ok((info as u64, Encoding::SameByte))
        } else if info == 24 {
            let value = self.take_u8()?;
            Ok((value as u64, Encoding::OneByte))
        } else if info == 25 {
            let value = self.take_u16()?;
            Ok((value as u64, Encoding::TwoBytes))
        } else if info == 26 {
            let value = self.take_u32()?;
            Ok((value as u64, Encoding::FourBytes))
        } else if info == 27 {
            let value = self.take_u64()?;
            Ok((value, Encoding::EightBytes))
        } else {
            Err(Error)
        }
    }

    /// Decodes what follows a header of major type 7 with additional
    /// information `info`.
    fn parse_simple(&mut self, info: u8) -> (res: Result<Token<'a>, Error>)
        ensures
            token_of(res) == decode_simple(info as int, old(self)@).token,
            final(self)@ == old(self)@.skip(decode_simple(info as int, old(self)@).consumed - 1),
    {
        if info == 31 {
            return Ok(Token::Stop);
        }
        let (value, _) = self.take_argument(info)?;
        Ok(
            match info {
                20 => Token::Bool(false),
                21 => Token::Bool(true),
                22 => Token::Null,
                23 => Token::Undefined,
                25 => Token::Half(value as u16),
                26 => Token::Single(value as u32),
                27 => Token::Double(value),
                _ => Token::SimpleValue(value as u8),
            },
        )
    }

    /// Decodes the item whose header byte, `byte`, has just been taken, and
    /// moves the cursor past the rest of it.
    fn parse_token(&mut self, byte: u8) -> (res: Result<Token<'a>, Error>)
        ensures
            token_of(res) == decode_item(byte, old(self)@).token,
            final(self)@ == old(self)@.skip(decode_item(byte, old(self)@).consumed - 1),
    {
        let major: u8 = byte >> 5;
        let info: u8 = byte & 0x1f;
        proof {
            assert(byte >> 5 == byte / 32) by (bit_vector);
            assert(byte & 0x1f == byte % 32) by (bit_vector);
        }
        if major == 7 {
            return self.parse_simple(info);
        }
        if info == 31 {
            return match major {
                2 => Ok(Token::StartBytes),
                3 => Ok(Token::StartText),
                4 => Ok(Token::StartArray(None)),
                5 => Ok(Token::StartMap(None)),
                _ => Err(Error),
            };
        }
        let (value, encoding) = self.take_argument(info)?;
        match major {
            0 => Ok(Token::Unsigned(value, encoding)),
            1 => Ok(Token::Negative(value, encoding)),
            2 => {
                let payload = self.take(value)?;
                Ok(Token::Bytes(payload, encoding))
            },
            3 => {
                let payload = self.take_text(value)?;
                Ok(Token::Text(payload, encoding))
            },
            4 => Ok(Token::StartArray(Some((value, encoding)))),
            5 => Ok(Token::StartMap(Some((value, encoding)))),
            _ => Ok(Token::Tag(value)),
        }
    }

    /// Decodes the item at the cursor. At the end of the buffer there is
    /// none, and that is no error. Otherwise this hands out the token of
    /// the item and moves the cursor past it, or fails where the bytes at
    /// the cursor are no well-formed item; after a failure the cursor is
    /// not at the start of an item, and what further calls decode is of no
    /// use.
    pub fn next(&mut self) -> (res: Option<Result<Token<'a>, Error>>)
        ensures
            old(self)@.len() == 0 ==> res is None && final(self)@ == old(self)@,
            old(self)@.len() > 0 ==> res is Some && token_of(res.unwrap()) == decode(
                old(self)@,
            ).token && final(self)@ == old(self)@.skip(decode(old(self)@).consumed as int),
    {
        match self.take_u8() {
            Err(_) => None,
            Ok(byte) => Some(self.parse_token(byte)),
        }
    }

    /// Decodes the rest of the buffer: all its tokens in order, or the
    /// error at the first item that is not well formed.
    pub fn collect(self) -> (res: Result<Vec<Token<'a>>, Error>)
        ensures
            match decode_all(self@) {
                Some(tokens) => res is Ok && token_views(res.unwrap()@) == tokens,
                None => res is Err,
            },
    {
        let mut parser = self;
        let mut tokens: Vec<Token<'a>> = Vec::new();
        loop
            invariant
                decode_all(self@) == match decode_all(parser@) {
                    Some(rest) => Some(token_views(tokens@) + rest),
                    None => None,
                },
            decreases parser@.len(),
        {
            let ghost before = parser@;
            match parser.next() {
                None => {
                    return Ok(tokens);
                },
                Some(Err(error)) => {
                    return Err(error);
                },
                Some(Ok(token)) => {
                    proof {
                        lemma_decode_consumed(before);
                    }
                    tokens.push(token);
                },
            }
        }
    }
}

} // verus!
