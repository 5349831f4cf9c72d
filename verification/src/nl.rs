//! The netlink message: a header of sixteen bytes and a payload.

use crate::buffer::{
    min, stream_all, stream_growable, stream_marked, stream_read, stream_rewind, stream_unread, stream_view,
    stream_write, stream_written, StreamView,
};
use crate::bytes::{
    align4, get_u16, get_u32, law_u16_round_trip, lemma_u32_of_prefix, law_u32_round_trip, pad_len, padding, push_padding,
    push_u16, push_u32, u16_bytes, u16_of, u32_bytes, u32_of, ByteOrder,
};
use crate::consts::{Code16, NlType, NlmF};
use crate::err::{DeError, SerError};
use buffering::copy::{StreamReadBuffer, StreamWriteBuffer};
use vstd::prelude::*;
use vstd::slice::slice_subrange;

verus! {

/// The size of the header of a message.
pub const NLMSG_HDRLEN: usize = 16;

/// A value that can be written as the payload of a message or an attribute.
pub trait Wire: View {
    /// The bytes of the value.
    spec fn wire(v: Self::V, order: ByteOrder) -> Seq<u8>;

    /// The number of those bytes.
    spec fn wire_len(v: Self::V) -> nat;

    /// The number of bytes does not depend on the byte order.
    proof fn law_wire_len(v: Self::V, order: ByteOrder)
        ensures
            Self::wire(v, order).len() == Self::wire_len(v),
    ;

    /// The number of bytes that the value takes.
    fn size(&self) -> (r: usize)
        requires
            Self::wire_len(self@) <= usize::MAX,
        ensures
            r == Self::wire_len(self@),
    ;

    /// Appends the bytes of the value.
    fn push_wire(&self, order: ByteOrder, out: &mut Vec<u8>)
        ensures
            final(out)@ == old(out)@ + Self::wire(self@, order),
    ;
}

/// A value that can be read back from the payload of a message or an attribute.
pub trait Nl: Wire + Sized {
    /// What the bytes of a payload stand for.
    spec fn read(order: ByteOrder, bytes: Seq<u8>) -> Result<Self::V, DeError>;

    /// Whether the bytes of the value stand for the value itself.
    spec fn kept(v: Self::V) -> bool;

    /// Reads the value that a payload stands for.
    fn deserialize(order: ByteOrder, bytes: &[u8]) -> (r: Result<Self, DeError>)
        ensures
            match r {
                Ok(x) => Self::read(order, bytes@) == Ok::<Self::V, DeError>(x@),
                Err(e) => Self::read(order, bytes@) == Err::<Self::V, DeError>(e),
            },
    ;

    /// What was written is read back.
    proof fn law_round_trip(v: Self::V, order: ByteOrder)
        requires
            Self::kept(v),
        ensures
            Self::read(order, Self::wire(v, order)) == Ok::<Self::V, DeError>(v),
    ;
}

/// The bits of the flags, all in one number.
pub open spec fn flag_bits(flags: Seq<NlmF>) -> u16
    decreases flags.len(),
{
    if flags.len() == 0 {
        0
    } else {
        flag_bits(flags.drop_last()) | flags.last().code()
    }
}

/// The flags that the lowest `n` bits of a number stand for, lowest bit first.
pub open spec fn flags_below(bits: u16, n: nat) -> Seq<NlmF>
    decreases n,
{
    if n == 0 {
        Seq::empty()
    } else {
        let below = flags_below(bits, (n - 1) as nat);
        let bit = 1u16 << ((n - 1) as u16);
        if bits & bit == bit {
            below.push(NlmF::of_code(bit))
        } else {
            below
        }
    }
}

/// The flags that a number stands for, one for each bit that is set, lowest bit first.
pub open spec fn flags_of(bits: u16) -> Seq<NlmF> {
    flags_below(bits, 16)
}

/// The flags that a number stands for have just the bits of that number.
pub proof fn law_flags_kept(bits: u16)
    ensures
        flag_bits(flags_of(bits)) == bits,
{
    lemma_flags_below(bits, 16);
    assert(((bits as u32) & (((1u32 << 16u32) - 1) as u32)) as u16 == bits) by (bit_vector);
}

proof fn lemma_flags_below(bits: u16, n: nat)
    requires
        n <= 16,
    ensures
        flag_bits(flags_below(bits, n)) == ((bits as u32) & (((1u32 << (n as u32)) - 1) as u32)) as u16,
    decreases n,
{
    if n == 0 {
        assert(((bits as u32) & (((1u32 << 0u32) - 1) as u32)) as u16 == 0) by (bit_vector);
    } else {
        let k = (n - 1) as u16;
        lemma_flags_below(bits, k as nat);
        let bit = 1u16 << k;
        NlmF::law_code_kept(bit);
        let below = ((bits as u32) & (((1u32 << (k as u32)) - 1) as u32)) as u16;
        let up_to = ((bits as u32) & (((1u32 << ((k + 1) as u32)) - 1) as u32)) as u16;
        assert(up_to == if bits & bit == bit { below | bit } else { below }) by (bit_vector)
            requires
                k < 16,
                bit == 1u16 << k,
                below == ((bits as u32) & (((1u32 << (k as u32)) - 1) as u32)) as u16,
                up_to == ((bits as u32) & (((1u32 << ((k + 1) as u32)) - 1) as u32)) as u16,
        ;
        if bits & bit == bit {
            let flags = flags_below(bits, n);
            assert(flags.drop_last() =~= flags_below(bits, k as nat));
        }
    }
}

/// The bits of the flags, all in one number.
fn bits_of_flags(flags: &Vec<NlmF>) -> (bits: u16)
    ensures
        bits == flag_bits(flags@),
{
    let mut bits: u16 = 0;
    let mut i: usize = 0;
    assert(flags@.take(0) =~= Seq::<NlmF>::empty());
    while i < flags.len()
        invariant
            i <= flags@.len(),
            bits == flag_bits(flags@.take(i as int)),
        decreases flags@.len() - i,
    {
        bits = bits | flags[i].to_u16();
        i = i + 1;
        assert(flags@.take(i as int).drop_last() =~= flags@.take(i - 1));
    }
    assert(flags@.take(i as int) =~= flags@);
    bits
}

/// The flags that a number stands for.
fn flags_of_bits(bits: u16) -> (flags: Vec<NlmF>)
    ensures
        flags@ == flags_of(bits),
{
    let mut flags: Vec<NlmF> = Vec::new();
    let mut i: u16 = 0;
    while i < 16
        invariant
            i <= 16,
            flags@ == flags_below(bits, i as nat),
        decreases 16 - i,
    {
        let bit: u16 = 1u16 << i;
        if bits & bit == bit {
            flags.push(NlmF::from_u16(bit));
        }
        i = i + 1;
    }
    flags
}

/// A netlink message whose type is a `T` and whose payload, if it has one, is a `P`.
#[derive(Debug, PartialEq, Eq)]
pub struct Nlmsghdr<T, P> {
    /// The length of the message in bytes, header included and padding not.
    pub nl_len: u32,
    /// The type of the message.
    pub nl_type: T,
    /// The flags of the message.
    pub nl_flags: Vec<NlmF>,
    /// The sequence number, by which an answer is matched to its request.
    pub nl_seq: u32,
    /// The netlink ID of the sender.
    pub nl_pid: u32,
    /// What the message carries.
    pub nl_payload: Option<P>,
}

/// What a message stands for.
#[verifier::ext_equal]
pub struct NlmsghdrView<T, V> {
    pub nl_len: u32,
    pub nl_type: T,
    pub nl_flags: Seq<NlmF>,
    pub nl_seq: u32,
    pub nl_pid: u32,
    pub nl_payload: Option<V>,
}

impl<T, P: View> View for Nlmsghdr<T, P> {
    type V = NlmsghdrView<T, P::V>;

    open spec fn view(&self) -> NlmsghdrView<T, P::V> {
        NlmsghdrView {
            nl_len: self.nl_len,
            nl_type: self.nl_type,
            nl_flags: self.nl_flags@,
            nl_seq: self.nl_seq,
            nl_pid: self.nl_pid,
            nl_payload: payload_view(self.nl_payload),
        }
    }
}

/// The number of bytes that an optional payload takes.
pub open spec fn payload_len<P: Wire>(payload: Option<P::V>) -> nat {
    match payload {
        Some(v) => P::wire_len(v),
        None => 0,
    }
}

/// The bytes of an optional payload.
pub open spec fn payload_wire<P: Wire>(payload: Option<P::V>, order: ByteOrder) -> Seq<u8> {
    match payload {
        Some(v) => P::wire(v, order),
        None => Seq::empty(),
    }
}

/// The number of bytes that a message takes, padding not counted.
pub open spec fn msg_size<T, P: Wire>(m: NlmsghdrView<T, P::V>) -> nat {
    NLMSG_HDRLEN as nat + payload_len::<P>(m.nl_payload)
}

/// The header of a message on the wire.
pub open spec fn header_wire<T: NlType, V>(m: NlmsghdrView<T, V>, order: ByteOrder) -> Seq<u8> {
    u32_bytes(order, m.nl_len) + u16_bytes(order, m.nl_type.code()) + u16_bytes(
        order,
        flag_bits(m.nl_flags),
    ) + u32_bytes(order, m.nl_seq) + u32_bytes(order, m.nl_pid)
}

/// A message on the wire: the header, the payload, and padding up to a multiple of four.
pub open spec fn msg_wire<T: NlType, P: Wire>(m: NlmsghdrView<T, P::V>, order: ByteOrder) -> Seq<u8> {
    header_wire(m, order) + payload_wire::<P>(m.nl_payload, order) + padding(msg_size::<T, P>(m))
}

/// What the header at the start of `u` says, with `payload` as the payload.
pub open spec fn header_of<T: NlType, V>(order: ByteOrder, u: Seq<u8>, payload: Option<V>) -> NlmsghdrView<T, V> {
    NlmsghdrView {
        nl_len: u32_of(order, u),
        nl_type: T::of_code(u16_of(order, u.skip(4))),
        nl_flags: flags_of(u16_of(order, u.skip(6))),
        nl_seq: u32_of(order, u.skip(8)),
        nl_pid: u32_of(order, u.skip(12)),
        nl_payload: payload,
    }
}

/// The length of the message at the start of `u`, which `u` must be long enough for.
pub open spec fn read_len(order: ByteOrder, u: Seq<u8>) -> Result<nat, DeError> {
    let len = u32_of(order, u) as nat;
    if u.len() < NLMSG_HDRLEN {
        Err(DeError::UnexpectedEOB)
    } else if len < NLMSG_HDRLEN {
        Err(DeError::BadLength)
    } else if u.len() < len {
        Err(DeError::UnexpectedEOB)
    } else {
        Ok(len)
    }
}

/// The payload that the bytes behind a header stand for. A message without such bytes has none.
pub open spec fn payload_of<P: Nl>(order: ByteOrder, bytes: Seq<u8>) -> Result<Option<P::V>, DeError> {
    if bytes.len() == 0 {
        Ok(None)
    } else {
        match P::read(order, bytes) {
            Ok(v) => Ok(Some(v)),
            Err(e) => Err(e),
        }
    }
}

/// The message at the start of `u`, and the number of bytes that it takes there. Padding at the very
/// end of `u` may be missing.
pub open spec fn read_msg<T: NlType, P: Nl>(order: ByteOrder, u: Seq<u8>) -> Result<(NlmsghdrView<T, P::V>, nat), DeError> {
    match read_len(order, u) {
        Ok(len) => match payload_of::<P>(order, u.subrange(NLMSG_HDRLEN as int, len as int)) {
            Ok(payload) => Ok((header_of::<T, P::V>(order, u, payload), min(align4(len), u.len()))),
            Err(e) => Err(e),
        },
        Err(e) => Err(e),
    }
}

/// The stream `before` when the message at its start has been read. A stream that does not start
/// with a message stays where it is.
pub open spec fn stream_after<T: NlType, P: Nl>(order: ByteOrder, before: StreamView) -> StreamView {
    match read_msg::<T, P>(order, before.unread) {
        Ok((_, n)) => StreamView { unread: before.unread.skip(n as int), marked: before.unread },
        Err(_) => StreamView { unread: before.unread, marked: before.unread },
    }
}

/// What an optional payload stands for.
pub open spec fn payload_view<P: View>(payload: Option<P>) -> Option<P::V> {
    match payload {
        Some(p) => Some(p@),
        None => None,
    }
}

/// Appends the header of a message.
pub(crate) fn push_header<T: NlType, P: View>(m: &Nlmsghdr<T, P>, order: ByteOrder, out: &mut Vec<u8>)
    ensures
        final(out)@ == old(out)@ + header_wire(m@, order),
{
    push_u32(order, m.nl_len, out);
    push_u16(order, m.nl_type.to_u16(), out);
    push_u16(order, bits_of_flags(&m.nl_flags), out);
    push_u32(order, m.nl_seq, out);
    push_u32(order, m.nl_pid, out);
    assert(out@ =~= old(out)@ + header_wire(m@, order));
}

/// The message whose header stands at the start of `bytes`.
pub(crate) fn get_header<T: NlType, P: View>(order: ByteOrder, bytes: &[u8], nl_payload: Option<P>) -> (m: Nlmsghdr<T, P>)
    requires
        NLMSG_HDRLEN <= bytes@.len(),
    ensures
        m@ == header_of::<T, P::V>(order, bytes@, payload_view(nl_payload)),
{
    assert(bytes@.skip(0) =~= bytes@);
    Nlmsghdr {
        nl_len: get_u32(order, bytes, 0),
        nl_type: T::from_u16(get_u16(order, bytes, 4)),
        nl_flags: flags_of_bits(get_u16(order, bytes, 6)),
        nl_seq: get_u32(order, bytes, 8),
        nl_pid: get_u32(order, bytes, 12),
        nl_payload,
    }
}

impl<T: NlType, P: Wire> Nlmsghdr<T, P> {
    /// A message. Where no length is given, it is the one that the message has, which the length
    /// field must be able to say.
    pub fn new(
        nl_len: Option<u32>,
        nl_type: T,
        nl_flags: Vec<NlmF>,
        nl_seq: Option<u32>,
        nl_pid: Option<u32>,
        nl_payload: Option<P>,
    ) -> (m: Self)
        requires
            nl_len is None ==> NLMSG_HDRLEN + payload_len::<P>(payload_view(nl_payload)) <= u32::MAX,
        ensures
            m.nl_len == (match nl_len {
                Some(len) => len as nat,
                None => msg_size::<T, P>(m@),
            }),
            m.nl_type == nl_type,
            m.nl_flags == nl_flags,
            m.nl_seq == nl_seq.unwrap_or(0),
            m.nl_pid == nl_pid.unwrap_or(0),
            m.nl_payload == nl_payload,
    {
        let nl_len: u32 = match nl_len {
            Some(len) => len,
            None => match &nl_payload {
                Some(p) => (NLMSG_HDRLEN + p.size()) as u32,
                None => NLMSG_HDRLEN as u32,
            },
        };
        Nlmsghdr {
            nl_len,
            nl_type,
            nl_flags,
            nl_seq: nl_seq.unwrap_or(0),
            nl_pid: nl_pid.unwrap_or(0),
            nl_payload,
        }
    }

    /// The number of bytes that the message takes, padding not counted.
    pub fn size(&self) -> (r: usize)
        requires
            msg_size::<T, P>(self@) <= usize::MAX,
        ensures
            r == msg_size::<T, P>(self@),
    {
        match &self.nl_payload {
            Some(p) => NLMSG_HDRLEN + p.size(),
            None => NLMSG_HDRLEN,
        }
    }

    /// The number of bytes that the message takes, padding counted.
    pub fn asize(&self) -> (r: usize)
        requires
            align4(msg_size::<T, P>(self@)) <= usize::MAX,
        ensures
            r == align4(msg_size::<T, P>(self@)),
    {
        let size: usize = self.size();
        size + pad_len(size)
    }

    /// Writes the message to a growable stream, padding included.
    pub fn serialize<'a>(&self, order: ByteOrder, mem: &mut StreamWriteBuffer<'a>) -> (r: Result<(), SerError>)
        requires
            stream_growable(*old(mem)),
            stream_written(*old(mem)).len() + align4(msg_size::<T, P>(self@)) <= isize::MAX,
        ensures
            r is Ok,
            stream_growable(*final(mem)),
            stream_written(*final(mem)) == stream_written(*old(mem)) + msg_wire::<T, P>(self@, order),
    {
        let mut out: Vec<u8> = Vec::new();
        push_header(self, order, &mut out);
        match &self.nl_payload {
            Some(p) => p.push_wire(order, &mut out),
            None => {},
        }
        push_padding(self.size(), &mut out);
        assert(out@ =~= msg_wire::<T, P>(self@, order));
        proof {
            lemma_msg_wire_len::<T, P>(self@, order);
        }
        stream_write(mem, out.as_slice()).unwrap();
        Ok(())
    }
}

/// A message takes its size, padded to a multiple of four.
pub proof fn lemma_msg_wire_len<T: NlType, P: Wire>(m: NlmsghdrView<T, P::V>, order: ByteOrder)
    ensures
        header_wire(m, order).len() == NLMSG_HDRLEN,
        payload_wire::<P>(m.nl_payload, order).len() == payload_len::<P>(m.nl_payload),
        msg_wire::<T, P>(m, order).len() == align4(msg_size::<T, P>(m)),
{
    match m.nl_payload {
        Some(v) => P::law_wire_len(v, order),
        None => {},
    }
}

/// Reads the bytes of the message that the stream stands at, without its padding. The stream then
/// stands behind the padding, or stays where it is where it does not stand at a message.
#[verifier::rlimit(40)]
fn read_bytes(order: ByteOrder, b: &mut StreamReadBuffer<Vec<u8>>) -> (r: Result<Vec<u8>, DeError>)
    ensures
        match r {
            Ok(bytes) => {
                let u = stream_unread(*old(b));
                let len = bytes@.len();
                &&& read_len(order, u) == Ok::<nat, DeError>(len)
                &&& bytes@ == u.take(len as int)
                &&& stream_unread(*final(b)) == u.skip(min(align4(len), u.len()) as int)
            },
            Err(e) => {
                &&& read_len(order, stream_unread(*old(b))) == Err::<nat, DeError>(e)
                &&& stream_unread(*final(b)) == stream_unread(*old(b))
            },
        },
        stream_marked(*final(b)) == stream_unread(*old(b)),
{
    let ghost u = stream_unread(*b);
    let mut head: Vec<u8> = vec![0u8; NLMSG_HDRLEN];
    let got: usize = stream_read(b, &mut head).unwrap();
    stream_rewind(b);
    if got < NLMSG_HDRLEN {
        return Err(DeError::UnexpectedEOB);
    }
    assert(head@ =~= u.take(16));
    let len: usize = get_u32(order, head.as_slice(), 0) as usize;
    proof {
        assert(head@.skip(0) =~= head@);
        assert(head@.take(4) =~= u.take(4));
        lemma_u32_of_prefix(order, head@, u);
    }
    if len < NLMSG_HDRLEN {
        return Err(DeError::BadLength);
    }
    let total: usize = stream_all(b).len();
    if total < len {
        return Err(DeError::UnexpectedEOB);
    }
    let pad: usize = pad_len(len);
    let want: usize = if total - len < pad {
        total
    } else {
        len + pad
    };
    let mut bytes: Vec<u8> = vec![0u8; want];
    let got: usize = stream_read(b, &mut bytes).unwrap();
    if got < len {
        stream_rewind(b);
        return Err(DeError::UnexpectedEOB);
    }
    bytes.truncate(len);
    assert(bytes@ =~= u.take(len as int));
    Ok(bytes)
}

impl<T: NlType, P: Nl> Nlmsghdr<T, P> {
    /// Reads the message that `bytes` are.
    fn from_bytes(order: ByteOrder, bytes: &[u8]) -> (r: Result<Self, DeError>)
        requires
            NLMSG_HDRLEN <= bytes@.len(),
        ensures
            match payload_of::<P>(order, bytes@.skip(NLMSG_HDRLEN as int)) {
                Ok(payload) => r matches Ok(m) && m@ == header_of::<T, P::V>(order, bytes@, payload),
                Err(e) => r == Err::<Self, DeError>(e),
            },
    {
        assert(bytes@.subrange(16, bytes@.len() as int) =~= bytes@.skip(16));
        let nl_payload: Option<P> = if bytes.len() == NLMSG_HDRLEN {
            None
        } else {
            match P::deserialize(order, slice_subrange(bytes, NLMSG_HDRLEN, bytes.len())) {
                Ok(p) => Some(p),
                Err(e) => {
                    return Err(e);
                },
            }
        };
        Ok(get_header(order, bytes, nl_payload))
    }

    /// Reads the message that the stream stands at. The stream then stands behind the message and
    /// its padding, and a rewind goes back to the message. Where there is no message the stream
    /// stays where it is.
    pub fn deserialize(order: ByteOrder, b: &mut StreamReadBuffer<Vec<u8>>) -> (r: Result<Self, DeError>)
        ensures
            match r {
                Ok(m) => read_msg::<T, P>(order, stream_unread(*old(b))) matches Ok((v, _)) && m@ == v,
                Err(e) => read_msg::<T, P>(order, stream_unread(*old(b))) == Err::<(NlmsghdrView<T, P::V>, nat), DeError>(e),
            },
            stream_view(*final(b)) == stream_after::<T, P>(order, stream_view(*old(b))),
    {
        let ghost u = stream_unread(*b);
        match read_bytes(order, b) {
            Ok(bytes) => {
                proof {
                    lemma_header_prefix::<T, P::V>(order, bytes@, u);
                    assert(bytes@.skip(16) =~= u.subrange(16, bytes@.len() as int));
                }
                match Self::from_bytes(order, bytes.as_slice()) {
                    Ok(m) => Ok(m),
                    Err(e) => {
                        stream_rewind(b);
                        Err(e)
                    },
                }
            },
            Err(e) => Err(e),
        }
    }
}

/// A header is read from the first sixteen bytes alone.
proof fn lemma_header_prefix<T: NlType, V>(order: ByteOrder, s: Seq<u8>, t: Seq<u8>)
    requires
        s.len() >= NLMSG_HDRLEN,
        t.len() >= NLMSG_HDRLEN,
        forall|i: int| 0 <= i < NLMSG_HDRLEN ==> s[i] == t[i],
    ensures
        forall|payload: Option<V>| #[trigger]
            header_of::<T, V>(order, s, payload) == header_of::<T, V>(order, t, payload),
{
    assert(forall|i: int| 0 <= i < 2 ==> s.skip(2)[i] == t.skip(2)[i]);
    assert(forall|i: int| 0 <= i < 2 ==> s.skip(4)[i] == t.skip(4)[i]);
    assert(forall|i: int| 0 <= i < 2 ==> s.skip(6)[i] == t.skip(6)[i]);
    assert(forall|i: int| 0 <= i < 4 ==> s.skip(8)[i] == t.skip(8)[i]);
    assert(forall|i: int| 0 <= i < 2 ==> s.skip(8).skip(2)[i] == t.skip(8).skip(2)[i]);
    assert(forall|i: int| 0 <= i < 4 ==> s.skip(12)[i] == t.skip(12)[i]);
    assert(forall|i: int| 0 <= i < 2 ==> s.skip(12).skip(2)[i] == t.skip(12).skip(2)[i]);
}

/// Whether the type and the flags of a message are read back as they are. They are unless a number
/// that has a name is given as one that has none, or the flags are not in the order of their bits.
pub open spec fn header_kept<T: NlType, V>(m: NlmsghdrView<T, V>) -> bool {
    &&& T::of_code(m.nl_type.code()) == m.nl_type
    &&& flags_of(flag_bits(m.nl_flags)) == m.nl_flags
}

/// Whether reading the message back gives the message itself: the length field says the length, the
/// header is read back, and so is the payload, which is not empty.
pub open spec fn msg_kept<T: NlType, P: Nl>(m: NlmsghdrView<T, P::V>) -> bool {
    &&& m.nl_len == msg_size::<T, P>(m)
    &&& header_kept(m)
    &&& m.nl_payload matches Some(v) ==> P::kept(v) && P::wire_len(v) > 0
}

/// A header is read back, whatever follows it.
pub proof fn law_header_round_trip<T: NlType, V>(m: NlmsghdrView<T, V>, order: ByteOrder, rest: Seq<u8>)
    requires
        header_kept(m),
    ensures
        header_wire(m, order).len() == NLMSG_HDRLEN,
        header_of::<T, V>(order, header_wire(m, order) + rest, m.nl_payload) == m,
{
    let len = u32_bytes(order, m.nl_len);
    let code = u16_bytes(order, m.nl_type.code());
    let bits = u16_bytes(order, flag_bits(m.nl_flags));
    let seq = u32_bytes(order, m.nl_seq);
    let pid = u32_bytes(order, m.nl_pid);
    law_u32_round_trip(order, m.nl_len, code + bits + seq + pid + rest);
    law_u16_round_trip(order, m.nl_type.code(), bits + seq + pid + rest);
    law_u16_round_trip(order, flag_bits(m.nl_flags), seq + pid + rest);
    law_u32_round_trip(order, m.nl_seq, pid + rest);
    law_u32_round_trip(order, m.nl_pid, rest);
    lemma_fields(len, code, bits, seq, pid, rest);
}

proof fn lemma_fields(
    len: Seq<u8>,
    code: Seq<u8>,
    bits: Seq<u8>,
    seq: Seq<u8>,
    pid: Seq<u8>,
    rest: Seq<u8>,
)
    requires
        len.len() == 4,
        code.len() == 2,
        bits.len() == 2,
        seq.len() == 4,
        pid.len() == 4,
    ensures
        (len + code + bits + seq + pid).len() == NLMSG_HDRLEN,
        (len + code + bits + seq + pid + rest) == len + (code + bits + seq + pid + rest),
        (len + code + bits + seq + pid + rest).skip(4) == code + (bits + seq + pid + rest),
        (len + code + bits + seq + pid + rest).skip(6) == bits + (seq + pid + rest),
        (len + code + bits + seq + pid + rest).skip(8) == seq + (pid + rest),
        (len + code + bits + seq + pid + rest).skip(12) == pid + rest,
{
    let u = len + code + bits + seq + pid + rest;
    assert(u =~= len + (code + bits + seq + pid + rest));
    assert(u.skip(4) =~= code + (bits + seq + pid + rest));
    assert(u.skip(6) =~= bits + (seq + pid + rest));
    assert(u.skip(8) =~= seq + (pid + rest));
    assert(u.skip(12) =~= pid + rest);
}

/// A message that was written is read back, whatever follows it, and what follows it is what is
/// left.
pub proof fn law_msg_round_trip<T: NlType, P: Nl>(m: NlmsghdrView<T, P::V>, order: ByteOrder, rest: Seq<u8>)
    requires
        msg_kept::<T, P>(m),
    ensures
        read_msg::<T, P>(order, msg_wire::<T, P>(m, order) + rest) == Ok::<(NlmsghdrView<T, P::V>, nat), DeError>(
            (m, msg_wire::<T, P>(m, order).len()),
        ),
        (msg_wire::<T, P>(m, order) + rest).skip(msg_wire::<T, P>(m, order).len() as int) == rest,
{
    let wire = msg_wire::<T, P>(m, order);
    let payload = payload_wire::<P>(m.nl_payload, order);
    let pad = padding(msg_size::<T, P>(m));
    let u = wire + rest;
    lemma_msg_wire_len::<T, P>(m, order);
    law_header_round_trip(m, order, payload + pad + rest);
    lemma_parts(header_wire(m, order), payload, pad, rest);
    assert(payload_of::<P>(order, payload) == Ok::<Option<P::V>, DeError>(m.nl_payload)) by {
        match m.nl_payload {
            Some(v) => P::law_round_trip(v, order),
            None => {},
        }
    }
    assert(u32_of(order, u) == m.nl_len) by {
        assert(header_of::<T, P::V>(order, u, m.nl_payload).nl_len == m.nl_len);
    }
    assert(read_len(order, u) == Ok::<nat, DeError>(m.nl_len as nat));
}

proof fn lemma_parts(header: Seq<u8>, payload: Seq<u8>, pad: Seq<u8>, rest: Seq<u8>)
    ensures
        header + payload + pad + rest == header + (payload + pad + rest),
        (header + payload + pad + rest).subrange(header.len() as int, (header.len() + payload.len()) as int) == payload,
        (header + payload + pad + rest).skip((header + payload + pad).len() as int) == rest,
{
    let u = header + payload + pad + rest;
    assert(u =~= header + (payload + pad + rest));
    assert(u.subrange(header.len() as int, (header.len() + payload.len()) as int) =~= payload);
    assert(u.skip((header + payload + pad).len() as int) =~= rest);
}

} // verus!
