//! The message-pack bytes of an array of texts, as rmp writes them.  The
//! library sends peer descriptions and document ids in this form.
use vstd::prelude::*;
use vstd::utf8::encode_utf8;
use crate::wire::{be_u16_bytes, be_u32_bytes};

verus! {

/// The header of an array of `n` elements: a fixarray byte below 16
/// elements, otherwise an array16 or array32 marker and the count in network
/// order.  The count is written modulo 2^32.
pub open spec fn msgpack_array_header(n: nat) -> Seq<u8> {
    let m = n as u32;
    if m < 16 {
        seq![(0x90 + m) as u8]
    } else if m <= 0xffff {
        seq![0xdcu8] + be_u16_bytes(m as u16)
    } else {
        seq![0xddu8] + be_u32_bytes(m)
    }
}

/// The header of a string of `n` bytes: a fixstr byte below 32 bytes,
/// otherwise a str8, str16 or str32 marker and the length in network order.
/// The length is written modulo 2^32.
pub open spec fn msgpack_str_header(n: nat) -> Seq<u8> {
    let m = n as u32;
    if m < 32 {
        seq![(0xa0 + m) as u8]
    } else if m < 256 {
        seq![0xd9u8, m as u8]
    } else if m <= 0xffff {
        seq![0xdau8] + be_u16_bytes(m as u16)
    } else {
        seq![0xdbu8] + be_u32_bytes(m)
    }
}

/// A text as a message-pack string: its header, then its UTF-8 bytes.
pub open spec fn msgpack_str(text: Seq<char>) -> Seq<u8> {
    msgpack_str_header(encode_utf8(text).len()) + encode_utf8(text)
}

/// The texts as message-pack strings, one after the other.
pub open spec fn msgpack_strs(texts: Seq<Seq<char>>) -> Seq<u8>
    decreases texts.len(),
{
    if texts.len() == 0 {
        Seq::empty()
    } else {
        msgpack_str(texts[0]) + msgpack_strs(texts.drop_first())
    }
}

/// The texts as a message-pack array of strings.
pub open spec fn msgpack_text_array(texts: Seq<Seq<char>>) -> Seq<u8> {
    msgpack_array_header(texts.len()) + msgpack_strs(texts)
}

} // verus!
