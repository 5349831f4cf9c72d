//! The plain values that stand as payloads: integers, strings and raw bytes.

use crate::bytes::{
    get_u16, get_u32, law_u16_round_trip, law_u32_round_trip, push_u16, push_u32, u16_bytes, u16_of,
    u32_bytes, u32_of, ByteOrder,
};
use crate::err::DeError;
use crate::nl::{Nl, Wire};
use vstd::prelude::*;
use vstd::slice::slice_subrange;
use vstd::utf8::{
    decode_utf8, encode_utf8, encode_utf8_decode_utf8, encode_utf8_valid_utf8, valid_utf8,
};

verus! {

impl Wire for u16 {
    open spec fn wire(v: u16, order: ByteOrder) -> Seq<u8> {
        u16_bytes(order, v)
    }

    open spec fn wire_len(v: u16) -> nat {
        2
    }

    proof fn law_wire_len(v: u16, order: ByteOrder) {
    }

    fn size(&self) -> (r: usize) {
        2
    }

    fn push_wire(&self, order: ByteOrder, out: &mut Vec<u8>) {
        push_u16(order, *self, out);
    }
}

impl Nl for u16 {
    /// The integer is what the first two bytes say.
    open spec fn read(order: ByteOrder, bytes: Seq<u8>) -> Result<u16, DeError> {
        if bytes.len() < 2 {
            Err(DeError::UnexpectedEOB)
        } else {
            Ok(u16_of(order, bytes))
        }
    }

    open spec fn kept(v: u16) -> bool {
        true
    }

    fn deserialize(order: ByteOrder, bytes: &[u8]) -> (r: Result<u16, DeError>) {
        assert(bytes@.skip(0) =~= bytes@);
        if bytes.len() < 2 {
            Err(DeError::UnexpectedEOB)
        } else {
            Ok(get_u16(order, bytes, 0))
        }
    }

    proof fn law_round_trip(v: u16, order: ByteOrder) {
        law_u16_round_trip(order, v, Seq::empty());
        assert(u16_bytes(order, v) + Seq::<u8>::empty() =~= u16_bytes(order, v));
    }
}

impl Wire for u32 {
    open spec fn wire(v: u32, order: ByteOrder) -> Seq<u8> {
        u32_bytes(order, v)
    }

    open spec fn wire_len(v: u32) -> nat {
        4
    }

    proof fn law_wire_len(v: u32, order: ByteOrder) {
    }

    fn size(&self) -> (r: usize) {
        4
    }

    fn push_wire(&self, order: ByteOrder, out: &mut Vec<u8>) {
        push_u32(order, *self, out);
    }
}

impl Nl for u32 {
    /// The integer is what the first four bytes say.
    open spec fn read(order: ByteOrder, bytes: Seq<u8>) -> Result<u32, DeError> {
        if bytes.len() < 4 {
            Err(DeError::UnexpectedEOB)
        } else {
            Ok(u32_of(order, bytes))
        }
    }

    open spec fn kept(v: u32) -> bool {
        true
    }

    fn deserialize(order: ByteOrder, bytes: &[u8]) -> (r: Result<u32, DeError>) {
        assert(bytes@.skip(0) =~= bytes@);
        if bytes.len() < 4 {
            Err(DeError::UnexpectedEOB)
        } else {
            Ok(get_u32(order, bytes, 0))
        }
    }

    proof fn law_round_trip(v: u32, order: ByteOrder) {
        law_u32_round_trip(order, v, Seq::empty());
        assert(u32_bytes(order, v) + Seq::<u8>::empty() =~= u32_bytes(order, v));
    }
}

/// Appends `bytes`.
pub fn push_all(bytes: &[u8], out: &mut Vec<u8>)
    ensures
        final(out)@ == old(out)@ + bytes@,
{
    out.extend_from_slice(bytes);
    assert(out@ =~= old(out)@ + bytes@);
}

/// A copy of `bytes`.
pub fn to_vec(bytes: &[u8]) -> (v: Vec<u8>)
    ensures
        v@ == bytes@,
{
    let mut v: Vec<u8> = Vec::new();
    push_all(bytes, &mut v);
    assert(v@ =~= bytes@);
    v
}

impl Wire for Vec<u8> {
    open spec fn wire(v: Seq<u8>, order: ByteOrder) -> Seq<u8> {
        v
    }

    open spec fn wire_len(v: Seq<u8>) -> nat {
        v.len()
    }

    proof fn law_wire_len(v: Seq<u8>, order: ByteOrder) {
    }

    fn size(&self) -> (r: usize) {
        self.len()
    }

    fn push_wire(&self, order: ByteOrder, out: &mut Vec<u8>) {
        push_all(self.as_slice(), out);
    }
}

impl Nl for Vec<u8> {
    open spec fn read(order: ByteOrder, bytes: Seq<u8>) -> Result<Seq<u8>, DeError> {
        Ok(bytes)
    }

    open spec fn kept(v: Seq<u8>) -> bool {
        true
    }

    fn deserialize(order: ByteOrder, bytes: &[u8]) -> (r: Result<Vec<u8>, DeError>) {
        Ok(to_vec(bytes))
    }

    proof fn law_round_trip(v: Seq<u8>, order: ByteOrder) {
    }
}

/// The bytes of a string: its UTF-8, ended by a zero byte.
pub open spec fn text_wire(chars: Seq<char>) -> Seq<u8> {
    encode_utf8(chars).push(0)
}

impl<'a> Wire for &'a str {
    open spec fn wire(v: Seq<char>, order: ByteOrder) -> Seq<u8> {
        text_wire(v)
    }

    open spec fn wire_len(v: Seq<char>) -> nat {
        text_wire(v).len()
    }

    proof fn law_wire_len(v: Seq<char>, order: ByteOrder) {
    }

    fn size(&self) -> (r: usize) {
        assert(Self::wire_len(self@) == encode_utf8(self@).len() + 1);
        self.as_bytes().len() + 1
    }

    fn push_wire(&self, order: ByteOrder, out: &mut Vec<u8>) {
        push_all(self.as_bytes(), out);
        out.push(0);
        assert(out@ =~= old(out)@ + text_wire(self@));
    }
}

impl Wire for String {
    open spec fn wire(v: Seq<char>, order: ByteOrder) -> Seq<u8> {
        text_wire(v)
    }

    open spec fn wire_len(v: Seq<char>) -> nat {
        text_wire(v).len()
    }

    proof fn law_wire_len(v: Seq<char>, order: ByteOrder) {
    }

    fn size(&self) -> (r: usize) {
        self.as_str().size()
    }

    fn push_wire(&self, order: ByteOrder, out: &mut Vec<u8>) {
        self.as_str().push_wire(order, out);
    }
}

/// The bytes of a string without the zero byte that ends them, if one does.
pub open spec fn text_body(bytes: Seq<u8>) -> Seq<u8> {
    if bytes.len() > 0 && bytes.last() == 0 {
        bytes.drop_last()
    } else {
        bytes
    }
}

/// [`String::from_utf8`]: a string just where the bytes are UTF-8, and then the one that they
/// encode.
#[verifier::external_body]
fn string_from_utf8(bytes: Vec<u8>) -> (r: Option<String>)
    ensures
        r is Some <==> valid_utf8(bytes@),
        r matches Some(s) ==> s@ == decode_utf8(bytes@),
{
    String::from_utf8(bytes).ok()
}

impl Nl for String {
    open spec fn read(order: ByteOrder, bytes: Seq<u8>) -> Result<Seq<char>, DeError> {
        if valid_utf8(text_body(bytes)) {
            Ok(decode_utf8(text_body(bytes)))
        } else {
            Err(DeError::BadString)
        }
    }

    open spec fn kept(v: Seq<char>) -> bool {
        true
    }

    fn deserialize(order: ByteOrder, bytes: &[u8]) -> (r: Result<String, DeError>) {
        let len: usize = bytes.len();
        let body: Vec<u8> = if len > 0 && bytes[len - 1] == 0 {
            to_vec(slice_subrange(bytes, 0, len - 1))
        } else {
            to_vec(bytes)
        };
        assert(body@ =~= text_body(bytes@));
        match string_from_utf8(body) {
            Some(s) => Ok(s),
            None => Err(DeError::BadString),
        }
    }

    proof fn law_round_trip(v: Seq<char>, order: ByteOrder) {
        assert(text_wire(v).drop_last() =~= encode_utf8(v));
        encode_utf8_valid_utf8(v);
        encode_utf8_decode_utf8(v);
    }
}

} // verus!
