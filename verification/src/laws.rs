//! Facts about the format that hold for every buffer, proved from its
//! definition in [`crate::format`].

use crate::format::{
    additional_info, argument, argument_encoding, argument_len, big_endian, decode, decode_all,
    lemma_big_endian_bound, lemma_decode_consumed, major_type,
};
use crate::token::{Encoding, TokenView};
use vstd::prelude::*;
use vstd::utf8::valid_utf8;

verus! {

/// An argument that follows the header is the number that its bytes spell,
/// exactly: one, two, four or eight bytes never spell more than 64 bits hold.
pub proof fn lemma_argument_is_big_endian(info: int, rest: Seq<u8>)
    requires
        24 <= info <= 27,
        argument_len(info) <= rest.len(),
    ensures
        argument(info, rest) matches Some((value, encoding)) && value == big_endian(
            rest.take(argument_len(info) as int),
        ) && encoding == argument_encoding(info),
{
    lemma_big_endian_bound(rest.take(argument_len(info) as int));
    reveal_with_fuel(vstd::arithmetic::power::pow, 9);
}

/// An unsigned integer written in the header byte alone, which is every
/// header byte up to 23, decodes to the low five bits of that byte with the
/// encoding `SameByte`, and the item ends with its header, whatever follows.
pub proof fn lemma_unsigned_in_header(input: Seq<u8>)
    requires
        input.len() > 0,
        input[0] <= 23,
    ensures
        decode(input).token == Some(
            TokenView::Unsigned(additional_info(input[0]) as u64, Encoding::SameByte),
        ),
        additional_info(input[0]) == input[0],
        decode(input).consumed == 1,
{
}

/// The additional informations 28, 29 and 30 are reserved: a header that
/// carries one of them is an error under every major type, whatever follows.
pub proof fn lemma_reserved_info_fails(input: Seq<u8>)
    requires
        input.len() > 0,
        28 <= additional_info(input[0]) <= 30,
    ensures
        decode(input).token is None,
        decode(input).consumed == 1,
{
}

/// A byte or text string that announces more payload than the buffer still
/// holds is an error, and the step stops in front of the payload: it passes
/// the header and the argument, and no byte more.
pub proof fn lemma_string_cut_short(input: Seq<u8>, len: u64, encoding: Encoding)
    requires
        input.len() > 0,
        major_type(input[0]) == 2 || major_type(input[0]) == 3,
        argument(additional_info(input[0]), input.skip(1)) == Some((len, encoding)),
        1 + argument_len(additional_info(input[0])) + len > input.len(),
    ensures
        decode(input).token is None,
        decode(input).consumed == 1 + argument_len(additional_info(input[0])),
{
}

/// A text string whose payload is not well-formed UTF-8 is an error, also
/// where the buffer holds every byte that the header announces.
pub proof fn lemma_text_not_utf8_fails(input: Seq<u8>, len: u64, encoding: Encoding)
    requires
        input.len() > 0,
        major_type(input[0]) == 3,
        argument(additional_info(input[0]), input.skip(1)) == Some((len, encoding)),
        1 + argument_len(additional_info(input[0])) + len <= input.len(),
        !valid_utf8(
            input.subrange(
                1 + argument_len(additional_info(input[0])) as int,
                1 + argument_len(additional_info(input[0])) + len,
            ),
        ),
    ensures
        decode(input).token is None,
{
    let start = argument_len(additional_info(input[0])) as int;
    assert(input.skip(1).skip(start).take(len as int) == input.subrange(
        1 + start,
        1 + start + len,
    ));
}

/// The header byte 0xBF opens a map of unknown length, and nothing but the
/// header belongs to that token.
pub proof fn lemma_open_map(input: Seq<u8>)
    requires
        input.len() > 0,
        input[0] == 0xbf,
    ensures
        decode(input).token == Some(TokenView::StartMap(None)),
        decode(input).consumed == 1,
{
}

/// The byte 0xFF is the stop code, and nothing but that byte belongs to
/// the token.
pub proof fn lemma_stop(input: Seq<u8>)
    requires
        input.len() > 0,
        input[0] == 0xff,
    ensures
        decode(input).token == Some(TokenView::Stop),
        decode(input).consumed == 1,
{
}

/// An empty buffer holds no tokens, and that is no error.
pub proof fn lemma_empty_buffer()
    ensures
        decode_all(Seq::empty()) == Some(Seq::<TokenView>::empty()),
{
}

/// Every token takes at least one byte of the buffer, so a buffer holds at
/// most as many tokens as it has bytes.
pub proof fn lemma_token_count(input: Seq<u8>)
    ensures
        decode_all(input) matches Some(tokens) ==> tokens.len() <= input.len(),
    decreases input.len(),
{
    if input.len() > 0 {
        lemma_decode_consumed(input);
        lemma_token_count(input.skip(decode(input).consumed as int));
    }
}

/// A well-formed item decodes alike whatever is appended to the buffer
/// behind it.
pub proof fn lemma_decode_ignores_what_follows(input: Seq<u8>, more: Seq<u8>)
    requires
        input.len() > 0,
        decode(input).token is Some,
    ensures
        decode(input + more) == decode(input),
        (input + more).skip(decode(input).consumed as int) == input.skip(
            decode(input).consumed as int,
        ) + more,
{
    let info = additional_info(input[0]);
    let len = argument_len(info) as int;
    let rest = input.skip(1);
    let longer = (input + more).skip(1);
    assert(longer == rest + more);
    if len <= rest.len() {
        assert(longer.take(len) == rest.take(len));
        assert(longer.skip(len) == rest.skip(len) + more);
        if let Some((value, _)) = argument(info, rest) {
            if value <= rest.skip(len).len() {
                assert(longer.skip(len).take(value as int) == rest.skip(len).take(value as int));
            }
        }
    }
}

/// Decoding goes through a buffer piece by piece: where `first` decodes
/// without a fault, the tokens of `first + second` are those of `first` and
/// then those of `second`, and a fault in `second` is a fault of the whole.
pub proof fn lemma_decode_all_concat(first: Seq<u8>, second: Seq<u8>)
    requires
        decode_all(first) is Some,
    ensures
        decode_all(first + second) == match decode_all(second) {
            Some(rest) => Some(decode_all(first).unwrap() + rest),
            None => None,
        },
    decreases first.len(),
{
    if first.len() == 0 {
        assert(first + second == second);
    } else {
        lemma_decode_consumed(first);
        lemma_decode_ignores_what_follows(first, second);
        lemma_decode_all_concat(first.skip(decode(first).consumed as int), second);
    }
}

/// Two buffers that each hold exactly one item, put one behind the other,
/// decode to the two tokens in that order: the first step hands out the
/// first token and leaves the cursor at the start of the second buffer.
pub proof fn lemma_two_items(first: Seq<u8>, second: Seq<u8>, a: TokenView, b: TokenView)
    requires
        decode_all(first) == Some(seq![a]),
        decode_all(second) == Some(seq![b]),
    ensures
        first.len() > 0,
        decode(first + second).token == Some(a),
        decode(first + second).consumed == first.len(),
        (first + second).skip(first.len() as int) == second,
        decode_all(first + second) == Some(seq![a, b]),
{
    lemma_decode_all_concat(first, second);
    assert(seq![a] + seq![b] == seq![a, b]);
    lemma_decode_consumed(first);
    lemma_decode_ignores_what_follows(first, second);
    // The one token of `first` is all of it: what is left behind the token
    // holds no token more, so it is empty.
    let tail = first.skip(decode(first).consumed as int);
    assert(decode_all(tail).unwrap().len() == 0);
    assert(tail.len() == 0);
}

} // verus!
