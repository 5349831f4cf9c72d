//! The errors of the library and the error message of the protocol.

use crate::bytes::{get_u32, law_u32_round_trip, push_u32, u32_bytes, u32_of, ByteOrder};
use crate::consts::NlType;
use crate::nl::{
    get_header, header_kept, header_of, header_wire, law_header_round_trip, lemma_msg_wire_len,
    msg_size, payload_wire, push_header, Nl, Nlmsghdr, NlmsghdrView, Wire, NLMSG_HDRLEN,
};
use crate::payload::to_vec;
use vstd::prelude::*;
use vstd::slice::slice_subrange;

verus! {

/// Why bytes are no value of the type asked for.
#[derive(Debug, Clone, Copy, PartialEq, Eq, Structural)]
pub enum DeError {
    /// The bytes end before the value does.
    UnexpectedEOB,
    /// A length field is smaller than the header that it stands in.
    BadLength,
    /// The bytes of a string are not UTF-8.
    BadString,
    /// There is no attribute of the type asked for.
    NoAttribute,
}

/// Why a value cannot be written.
#[derive(Debug, Clone, Copy, PartialEq, Eq, Structural)]
pub enum SerError {
    /// The value is longer than its length field can say.
    TooLong,
}

/// Why an operation on a socket failed.
#[derive(Debug)]
pub enum NlError {
    /// A failure that only a text describes.
    Msg(String),
    /// A system call failed.
    Io(std::io::Error),
    /// A value could not be written.
    Ser(SerError),
    /// Bytes could not be read.
    De(DeError),
    /// No acknowledgement was received.
    NoAck,
    /// The sequence number of an acknowledgement is not that of the request.
    BadSeq,
    /// A message came from another sender than those before it.
    BadPid,
}

/// What an [`NlError`] stands for. Nothing is known of the error of a system call.
pub enum NlErrorView {
    Msg(Seq<char>),
    Io,
    Ser(SerError),
    De(DeError),
    NoAck,
    BadSeq,
    BadPid,
}

impl View for NlError {
    type V = NlErrorView;

    open spec fn view(&self) -> NlErrorView {
        match self {
            NlError::Msg(text) => NlErrorView::Msg(text@),
            NlError::Io(_) => NlErrorView::Io,
            NlError::Ser(e) => NlErrorView::Ser(*e),
            NlError::De(e) => NlErrorView::De(*e),
            NlError::NoAck => NlErrorView::NoAck,
            NlError::BadSeq => NlErrorView::BadSeq,
            NlError::BadPid => NlErrorView::BadPid,
        }
    }
}

impl NlError {
    /// The failure that `text` describes.
    pub fn new(text: &str) -> (e: NlError)
        ensures
            e@ == NlErrorView::Msg(text@),
    {
        NlError::Msg(text.to_owned())
    }
}

/// The error message of the protocol. One whose code is zero acknowledges the request.
#[derive(Debug, PartialEq, Eq)]
pub struct Nlmsgerr<T> {
    /// The error code: zero, or the negative of an error number.
    pub error: i32,
    /// The request that the message answers: its header, and as much of its payload as is sent back.
    pub nlmsg: Nlmsghdr<T, Vec<u8>>,
}

/// What an error message stands for.
#[verifier::ext_equal]
pub struct NlmsgerrView<T> {
    pub error: i32,
    pub nlmsg: NlmsghdrView<T, Seq<u8>>,
}

impl<T> View for Nlmsgerr<T> {
    type V = NlmsgerrView<T>;

    open spec fn view(&self) -> NlmsgerrView<T> {
        NlmsgerrView { error: self.error, nlmsg: self.nlmsg@ }
    }
}

impl<T: NlType> Wire for Nlmsgerr<T> {
    open spec fn wire(v: NlmsgerrView<T>, order: ByteOrder) -> Seq<u8> {
        u32_bytes(order, v.error as u32) + header_wire(v.nlmsg, order) + payload_wire::<Vec<u8>>(
            v.nlmsg.nl_payload,
            order,
        )
    }

    open spec fn wire_len(v: NlmsgerrView<T>) -> nat {
        4 + msg_size::<T, Vec<u8>>(v.nlmsg)
    }

    proof fn law_wire_len(v: NlmsgerrView<T>, order: ByteOrder) {
        lemma_msg_wire_len::<T, Vec<u8>>(v.nlmsg, order);
    }

    fn size(&self) -> (r: usize) {
        4 + self.nlmsg.size()
    }

    fn push_wire(&self, order: ByteOrder, out: &mut Vec<u8>) {
        push_u32(order, self.error as u32, out);
        push_header(&self.nlmsg, order, out);
        match &self.nlmsg.nl_payload {
            Some(p) => p.push_wire(order, out),
            None => {},
        }
        assert(out@ =~= old(out)@ + Self::wire(self@, order));
    }
}

impl<T: NlType> Nl for Nlmsgerr<T> {
    /// What follows the header of the request is its payload, however long that header says it was.
    open spec fn read(order: ByteOrder, bytes: Seq<u8>) -> Result<NlmsgerrView<T>, DeError> {
        if bytes.len() < 4 + NLMSG_HDRLEN {
            Err(DeError::UnexpectedEOB)
        } else {
            let payload = bytes.skip(4 + NLMSG_HDRLEN);
            Ok(
                NlmsgerrView {
                    error: u32_of(order, bytes) as i32,
                    nlmsg: header_of(
                        order,
                        bytes.skip(4),
                        if payload.len() == 0 {
                            None
                        } else {
                            Some(payload)
                        },
                    ),
                },
            )
        }
    }

    open spec fn kept(v: NlmsgerrView<T>) -> bool {
        &&& header_kept(v.nlmsg)
        &&& v.nlmsg.nl_payload matches Some(payload) ==> payload.len() > 0
    }

    fn deserialize(order: ByteOrder, bytes: &[u8]) -> (r: Result<Self, DeError>) {
        let len: usize = bytes.len();
        if len < 4 + NLMSG_HDRLEN {
            return Err(DeError::UnexpectedEOB);
        }
        assert(bytes@.skip(0) =~= bytes@);
        assert(bytes@.subrange(4, len as int) =~= bytes@.skip(4));
        assert(bytes@.subrange(20, len as int) =~= bytes@.skip(20));
        let payload: Option<Vec<u8>> = if len == 4 + NLMSG_HDRLEN {
            None
        } else {
            Some(to_vec(slice_subrange(bytes, 4 + NLMSG_HDRLEN, len)))
        };
        Ok(
            Nlmsgerr {
                error: get_u32(order, bytes, 0) as i32,
                nlmsg: get_header(order, slice_subrange(bytes, 4, len), payload),
            },
        )
    }

    proof fn law_round_trip(v: NlmsgerrView<T>, order: ByteOrder) {
        let bytes = Self::wire(v, order);
        let code = u32_bytes(order, v.error as u32);
        let header = header_wire(v.nlmsg, order);
        let payload = payload_wire::<Vec<u8>>(v.nlmsg.nl_payload, order);
        assert(bytes =~= code + (header + payload));
        law_u32_round_trip(order, v.error as u32, header + payload);
        law_header_round_trip(v.nlmsg, order, payload);
        assert(bytes.skip(4) =~= header + payload);
        assert(bytes.skip(20) =~= payload);
        let error = v.error;
        assert((error as u32) as i32 == error) by (bit_vector);
    }
}

} // verus!
