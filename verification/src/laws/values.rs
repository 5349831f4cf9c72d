//! What making, writing, reading and looking up values gives.
//!
//! Each law speaks of whatever the operation returns: `call_ensures` says that a call of the
//! operation with those arguments may return that result.

use crate::buffer::{stream_marked, stream_unread, stream_written};
use crate::bytes::{machine_reads, u16_of, ByteOrder};
use crate::consts::{Cmd, Code16, CtrlAttr, CtrlAttrMcastGrp, CtrlCmd, GenlId, NlAttrType, NlType, NlmF, Rtm};
use crate::err::{DeError, NlError, SerError};
use crate::genl::Genlmsghdr;
use crate::nl::{msg_wire, read_msg, Nl, Nlmsghdr, Wire};
use crate::nlattr::{
    parse_attrs, read_attrs, AttrHandle, Nlattr, };
use buffering::copy::{StreamReadBuffer, StreamWriteBuffer};
use vstd::prelude::*;

verus! {

/// A value without a name is sent as its own number.
pub proof fn law_unnamed(code: u16, cmd: u8)
    ensures
        GenlId::UnrecognizedVariant(code).code() == code,
        Rtm::UnrecognizedVariant(code).code() == code,
        CtrlAttr::UnrecognizedVariant(code).code() == code,
        CtrlAttrMcastGrp::UnrecognizedVariant(code).code() == code,
        NlmF::UnrecognizedVariant(code).code() == code,
        CtrlCmd::UnrecognizedVariant(cmd).code() == cmd,
{
}

/// A flag is a bit of its own, but for the flags of requests for tables, which share their bits with
/// those of requests for changes, and for a dump, which is the whole table and all of its matches.
pub proof fn law_flag_numbers()
    ensures
        NlmF::Request.code() == 1,
        NlmF::Multi.code() == 2,
        NlmF::Ack.code() == 4,
        NlmF::Echo.code() == 8,
        NlmF::DumpIntr.code() == 16,
        NlmF::DumpFiltered.code() == 32,
        NlmF::Root.code() == 256 && NlmF::Replace.code() == 256,
        NlmF::Match.code() == 512 && NlmF::Excl.code() == 512,
        NlmF::Atomic.code() == 1024 && NlmF::Create.code() == 1024,
        NlmF::Append.code() == 2048,
        NlmF::Dump.code() == NlmF::Root.code() | NlmF::Match.code(),
{
    assert(256u16 | 512u16 == 768u16) by (bit_vector);
}

/// A flag that is read from a number has that number, and has a name where there is one for it.
pub proof fn law_flag_named(flag: NlmF)
    ensures
        !(flag is UnrecognizedVariant) ==> !(NlmF::of_code(flag.code()) is UnrecognizedVariant),
        NlmF::of_code(flag.code()).code() == flag.code(),
        !(flag is UnrecognizedVariant || flag is Replace || flag is Excl || flag is Create) ==> NlmF::of_code(
            flag.code(),
        ) == flag,
{
}

/// The byte order of the machine is the one in which a one followed by a zero reads as the machine
/// reads them.
pub proof fn law_native(order: ByteOrder)
    requires
        call_ensures(ByteOrder::native, (), order),
    ensures
        exists|v: u16| #[trigger] machine_reads(1, 0, v) && u16_of(order, seq![1u8, 0u8]) == v,
{
}

/// A message has what it was given. Where no length is given, its length is that of the header and
/// the payload, and so is its size. Its size with padding is the next multiple of four.
pub proof fn law_message_made<T: NlType, P: Wire>(
    nl_len: Option<u32>,
    nl_type: T,
    nl_flags: Vec<NlmF>,
    nl_seq: Option<u32>,
    nl_pid: Option<u32>,
    nl_payload: Option<P>,
    m: Nlmsghdr<T, P>,
    size: usize,
    asize: usize,
)
    requires
        call_ensures(Nlmsghdr::<T, P>::new, (nl_len, nl_type, nl_flags, nl_seq, nl_pid, nl_payload), m),
        call_ensures(Nlmsghdr::<T, P>::size, (&m,), size),
        call_ensures(Nlmsghdr::<T, P>::asize, (&m,), asize),
    ensures
        m.nl_type == nl_type,
        m.nl_flags == nl_flags,
        m.nl_seq == (if nl_seq is Some {
            nl_seq->0
        } else {
            0
        }),
        m.nl_pid == (if nl_pid is Some {
            nl_pid->0
        } else {
            0
        }),
        m.nl_payload == nl_payload,
        size == 16 + (if nl_payload is Some {
            P::wire_len(nl_payload->0@)
        } else {
            0
        }),
        nl_len is Some ==> m.nl_len == nl_len->0,
        nl_len is None ==> m.nl_len == size,
        size <= asize < size + 4,
        asize % 4 == 0,
{
}

/// Writing a message appends its bytes to what was written, and reading one gives the message at the
/// start of what is unread and leaves what is behind it, with a rewind going back to the message.
/// Where there is none, what is unread stays.
pub proof fn law_written_and_read<T: NlType, P: Nl>(
    m: Nlmsghdr<T, P>,
    order: ByteOrder,
    w: &mut StreamWriteBuffer<'_>,
    written: Result<(), SerError>,
    b: &mut StreamReadBuffer<Vec<u8>>,
    read: Result<Nlmsghdr<T, P>, DeError>,
)
    requires
        call_ensures(Nlmsghdr::<T, P>::serialize, (&m, order, w), written),
        call_ensures(Nlmsghdr::<T, P>::deserialize, (order, b), read),
    ensures
        written is Ok,
        stream_written(*final(w)) == stream_written(*old(w)) + msg_wire::<T, P>(m@, order),
        match read_msg::<T, P>(order, stream_unread(*old(b))) {
            Ok((v, n)) => {
                &&& read matches Ok(x) && x@ == v
                &&& stream_unread(*final(b)) == stream_unread(*old(b)).skip(n as int)
                &&& stream_marked(*final(b)) == stream_unread(*old(b))
            },
            Err(e) => {
                &&& read matches Err(x) && x == e
                &&& stream_unread(*final(b)) == stream_unread(*old(b))
            },
        },
{
}

/// An attribute has the type that it was given and the bytes of its value. Where no length is given,
/// its length is that of the header and the value, and a value for which that is too long is refused,
/// and no other.
pub proof fn law_attr_made<T: NlAttrType, P: Wire>(
    order: ByteOrder,
    nla_len: Option<u16>,
    nla_type: T,
    payload: P,
    r: Result<Nlattr<T>, SerError>,
)
    requires
        call_ensures(Nlattr::<T>::new::<P>, (order, nla_len, nla_type, payload), r),
    ensures
        r is Ok <==> nla_len is Some || P::wire(payload@, order).len() <= 65531,
        r matches Err(e) ==> e == SerError::TooLong,
        r matches Ok(a) ==> a.nla_type == nla_type && a.payload@ == P::wire(payload@, order) && a.nla_len == (
        if nla_len is Some {
            nla_len->0 as nat
        } else {
            4 + P::wire(payload@, order).len()
        }),
{
    P::law_wire_len(payload@, order);
}

/// A generic netlink message has what it was given, and its attributes are those that values are
/// looked up in.
pub proof fn law_genl_made<C: Cmd, T: NlAttrType>(
    cmd: C,
    version: u8,
    attrs: Vec<Nlattr<T>>,
    r: Result<Genlmsghdr<C, T>, SerError>,
    m: Genlmsghdr<C, T>,
    handle: AttrHandle<'_, T>,
)
    requires
        call_ensures(Genlmsghdr::<C, T>::new, (cmd, version, attrs), r),
        call_ensures(Genlmsghdr::<C, T>::get_attr_handle, (&m,), handle),
    ensures
        r matches Ok(made) && made.cmd == cmd && made.version == version && made.attrs == attrs,
        handle@.len() == m.attrs@.len(),
        forall|i: int| 0 <= i < m.attrs@.len() ==> #[trigger] handle@[i] == m.attrs@[i]@,
{
}

/// The attributes to look values up in are those that are held, in their order.
pub proof fn law_handle_seen<T: NlAttrType>(held: Vec<Nlattr<T>>)
    ensures
        AttrHandle::Owned(held)@.len() == held@.len(),
        AttrHandle::Borrowed(&held)@ == AttrHandle::Owned(held)@,
        forall|i: int| 0 <= i < held@.len() ==> #[trigger] AttrHandle::Owned(held)@[i] == held@[i]@,
{
}

/// An attribute is looked up as the first of its type, and its value is read as what is asked for. A
/// type that is not there is a failure of its own.
pub proof fn law_looked_up<'a, T: NlAttrType, R: Nl, S: NlAttrType>(
    handle: AttrHandle<'a, T>,
    order: ByteOrder,
    attr: T,
    found: Option<&Nlattr<T>>,
    value: Result<R, DeError>,
    nested: Result<AttrHandle<'static, S>, DeError>,
)
    requires
        call_ensures(AttrHandle::<'a, T>::get_attribute, (&handle, attr), found),
        call_ensures(AttrHandle::<'a, T>::get_attr_payload_as::<R>, (&handle, order, attr), value),
        call_ensures(AttrHandle::<'a, T>::get_nested_attributes::<S>, (&handle, order, attr), nested),
    ensures
        found is None <==> forall|k: int|
            0 <= k < handle@.len() ==> (#[trigger] handle@[k]).nla_type.code() != attr.code(),
        found matches Some(a) ==> exists|i: int|
            {
                &&& 0 <= i < handle@.len()
                &&& a@ == #[trigger] handle@[i]
                &&& a.nla_type.code() == attr.code()
                &&& forall|k: int| 0 <= k < i ==> (#[trigger] handle@[k]).nla_type.code() != attr.code()
            },
        found is None ==> (value matches Err(e) && e == DeError::NoAttribute) && (nested matches Err(e) && e
            == DeError::NoAttribute),
        found matches Some(a) ==> (match R::read(order, a.payload@) {
            Ok(v) => value matches Ok(x) && x@ == v,
            Err(e) => value matches Err(x) && x == e,
        }) && (match read_attrs::<S>(order, a.payload@) {
            Ok(v) => nested matches Ok(x) && x@ == v,
            Err(e) => nested matches Err(x) && x == e,
        }),
{
    crate::laws::format::law_attr_found(handle@, attr.code());
}

/// Attributes are read from bytes, and from the value of an attribute, as what the bytes stand for.
pub proof fn law_attrs_parsed<T: NlAttrType, S: NlAttrType>(
    order: ByteOrder,
    bytes: &[u8],
    parsed: Result<Vec<Nlattr<S>>, DeError>,
    a: Nlattr<T>,
    nested: Result<AttrHandle<'static, S>, DeError>,
)
    requires
        call_ensures(parse_attrs::<S>, (order, bytes), parsed),
        call_ensures(Nlattr::<T>::get_nested_attributes::<S>, (&a, order), nested),
    ensures
        match read_attrs::<S>(order, bytes@) {
            Ok(v) => parsed matches Ok(x) && x@.len() == v.len() && forall|i: int|
                0 <= i < v.len() ==> (#[trigger] x@[i])@ == v[i],
            Err(e) => parsed matches Err(x) && x == e,
        },
        match read_attrs::<S>(order, a.payload@) {
            Ok(v) => nested matches Ok(x) && x@ == v,
            Err(e) => nested matches Err(x) && x == e,
        },
{
}

/// A failure that a text describes holds that text.
pub proof fn law_text_failure(text: &str, e: NlError)
    requires
        call_ensures(NlError::new, (text,), e),
    ensures
        e matches NlError::Msg(held) && held@ == text@,
{
}

} // verus!
