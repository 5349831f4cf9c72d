//! What messages are on the wire, byte by byte, and what is made of any bytes.

use crate::buffer::min;
use crate::bytes::{align4, padding, u16_bytes, u16_of, u32_bytes, u32_of, ByteOrder};
use crate::consts::{
    Cmd, Code16, CtrlAttr, CtrlAttrMcastGrp, CtrlCmd, GenlId, NlAttrType, NlType, NlmF, Rtm,
};
use crate::err::{DeError, Nlmsgerr, NlmsgerrView};
use crate::genl::{Genlmsghdr, GenlmsghdrView};
use crate::nl::{
    flag_bits, flags_below, flags_of, law_flags_kept, lemma_msg_wire_len, msg_kept, msg_wire,
    payload_wire, read_msg, Nl, Nlmsghdr, NlmsghdrView, Wire,
};
use crate::nlattr::{
    attr_payload_as, attr_wire, attrs_kept, attrs_len, attrs_wire, find_attr,
    lemma_attrs_wire_len, nested_attributes, read_attrs, Nlattr, NlattrView,
};
use crate::payload::text_wire;
use vstd::prelude::*;
use vstd::utf8::{decode_utf8, encode_utf8, valid_utf8};

verus! {

/// The bytes of a 16-bit integer weigh one and 256, the lowest first or last.
pub proof fn law_u16_bytes(order: ByteOrder, v: u16)
    ensures
        u16_bytes(order, v).len() == 2,
        order == ByteOrder::Little ==> u16_bytes(order, v)[0] + 256 * u16_bytes(order, v)[1] == v,
        order == ByteOrder::Big ==> 256 * u16_bytes(order, v)[0] + u16_bytes(order, v)[1] == v,
{
}

/// Any two bytes are read with the weights one and 256, the lowest first or last.
pub proof fn law_u16_of(order: ByteOrder, s: Seq<u8>)
    requires
        s.len() >= 2,
    ensures
        order == ByteOrder::Little ==> u16_of(order, s) == s[0] + 256 * s[1],
        order == ByteOrder::Big ==> u16_of(order, s) == 256 * s[0] + s[1],
{
}

/// The bytes of a 32-bit integer weigh powers of 256, the lowest first or last.
pub proof fn law_u32_bytes(order: ByteOrder, v: u32)
    ensures
        ({
            let b = u32_bytes(order, v);
            &&& b.len() == 4
            &&& order == ByteOrder::Little ==> b[0] + 256 * b[1] + 65536 * b[2] + 16777216 * b[3] == v
            &&& order == ByteOrder::Big ==> 16777216 * b[0] + 65536 * b[1] + 256 * b[2] + b[3] == v
        }),
{
    let low = (v % 65536) as u16;
    let high = (v / 65536) as u16;
    law_u16_bytes(order, low);
    law_u16_bytes(order, high);
    assert(v == low + 65536 * high);
}

/// Any four bytes are read with powers of 256 as their weights, the lowest first or last.
pub proof fn law_u32_of(order: ByteOrder, s: Seq<u8>)
    requires
        s.len() >= 4,
    ensures
        order == ByteOrder::Little ==> u32_of(order, s) == s[0] + 256 * s[1] + 65536 * s[2] + 16777216 * s[3],
        order == ByteOrder::Big ==> u32_of(order, s) == 16777216 * s[0] + 65536 * s[1] + 256 * s[2] + s[3],
{
    law_u16_of(order, s);
    law_u16_of(order, s.skip(2));
    assert(s.skip(2)[0] == s[2] && s.skip(2)[1] == s[3]);
}

/// Padding is the fewest zero bytes that make a length a multiple of four.
pub proof fn law_padding(n: nat)
    ensures
        padding(n).len() < 4,
        (n + padding(n).len()) % 4 == 0,
        align4(n) == n + padding(n).len(),
        forall|i: int| 0 <= i < padding(n).len() ==> #[trigger] padding(n)[i] == 0,
{
}

/// A value that has a name is read back from its number as that value.
pub proof fn law_names_kept(id: GenlId, rtm: Rtm, attr: CtrlAttr, group: CtrlAttrMcastGrp, cmd: CtrlCmd)
    ensures
        !(id is UnrecognizedVariant) ==> GenlId::of_code(id.code()) == id,
        !(rtm is UnrecognizedVariant) ==> Rtm::of_code(rtm.code()) == rtm,
        !(attr is UnrecognizedVariant) ==> CtrlAttr::of_code(attr.code()) == attr,
        !(group is UnrecognizedVariant) ==> CtrlAttrMcastGrp::of_code(group.code()) == group,
        !(cmd is UnrecognizedVariant) ==> CtrlCmd::of_code(cmd.code()) == cmd,
{
}

/// A bit is among the bits of the flags just where a flag has it.
pub proof fn law_flag_bits(flags: Seq<NlmF>, i: u16)
    requires
        i < 16,
    ensures
        (flag_bits(flags) >> i) & 1 == 1 <==> exists|k: int|
            0 <= k < flags.len() && ((#[trigger] flags[k]).code() >> i) & 1 == 1,
    decreases flags.len(),
{
    if flags.len() == 0 {
        assert((0u16 >> i) & 1 == 0) by (bit_vector);
    } else {
        let front = flags.drop_last();
        let last = flags.last().code();
        let bits = flag_bits(front);
        law_flag_bits(front, i);
        assert(((bits | last) >> i) & 1 == 1 <==> ((bits >> i) & 1 == 1 || (last >> i) & 1 == 1)) by (bit_vector)
            requires
                i < 16,
        ;
        if (bits >> i) & 1 == 1 {
            let k = choose|k: int| 0 <= k < front.len() && ((#[trigger] front[k]).code() >> i) & 1 == 1;
            assert(flags[k] == front[k]);
        }
        if (last >> i) & 1 == 1 {
            assert(flags[flags.len() - 1].code() == last);
        }
        if exists|k: int| 0 <= k < flags.len() && ((#[trigger] flags[k]).code() >> i) & 1 == 1 {
            let k = choose|k: int| 0 <= k < flags.len() && ((#[trigger] flags[k]).code() >> i) & 1 == 1;
            if k < front.len() {
                assert(front[k] == flags[k]);
            }
        }
    }
}

/// The flags that a number is read as are single bits, each as its own number names it, the lowest
/// first. Together they have just the bits of the number.
pub proof fn law_flags_read(bits: u16)
    ensures
        flag_bits(flags_of(bits)) == bits,
        forall|k: int|
            0 <= k < flags_of(bits).len() ==> (#[trigger] flags_of(bits)[k]) == NlmF::of_code(
                flags_of(bits)[k].code(),
            ) && exists|i: u16| i < 16 && flags_of(bits)[k].code() == #[trigger] (1u16 << i),
        forall|j: int, k: int|
            0 <= j < k < flags_of(bits).len() ==> (#[trigger] flags_of(bits)[j]).code() < (
            #[trigger] flags_of(bits)[k]).code(),
{
    law_flags_kept(bits);
    lemma_flags_ordered(bits, 16);
}

/// The flags of the lowest bits are single bits, below all further bits and in order.
proof fn lemma_flags_ordered(bits: u16, n: nat)
    requires
        n <= 16,
    ensures
        ({
            let f = flags_below(bits, n);
            &&& forall|k: int|
                0 <= k < f.len() ==> (#[trigger] f[k]) == NlmF::of_code(f[k].code()) && exists|i: u16|
                    i < n && f[k].code() == #[trigger] (1u16 << i)
            &&& forall|j: int, k: int| 0 <= j < k < f.len() ==> (#[trigger] f[j]).code() < (#[trigger] f[k]).code()
        }),
    decreases n,
{
    if n > 0 {
        let below = flags_below(bits, (n - 1) as nat);
        let f = flags_below(bits, n);
        let top = (n - 1) as u16;
        let bit = 1u16 << top;
        lemma_flags_ordered(bits, (n - 1) as nat);
        NlmF::law_code_kept(bit);
        assert(forall|i: u16, t: u16| i < t < 16 ==> #[trigger] (1u16 << i) < #[trigger] (1u16 << t)) by (bit_vector);
        assert forall|k: int| 0 <= k < f.len() implies (#[trigger] f[k]) == NlmF::of_code(f[k].code()) && exists|i: u16|
            i < n && f[k].code() == #[trigger] (1u16 << i) by {
            if k < below.len() {
                assert(f[k] == below[k]);
                let i = choose|i: u16| i < n - 1 && below[k].code() == #[trigger] (1u16 << i);
                assert(i < n && f[k].code() == 1u16 << i);
            } else {
                assert(top < n && f[k].code() == 1u16 << top);
            }
        }
        assert forall|j: int, k: int| 0 <= j < k < f.len() implies (#[trigger] f[j]).code() < (#[trigger] f[k]).code() by {
            assert(f[j] == below[j]);
            if k < below.len() {
                assert(f[k] == below[k]);
            } else {
                let i = choose|i: u16| i < n - 1 && below[j].code() == #[trigger] (1u16 << i);
                assert(1u16 << i < 1u16 << top);
            }
        }
    }
}

/// The bytes of a message, place by place: length, type, flags, number, ID, payload, and zero bytes
/// up to a multiple of four.
pub proof fn law_message_layout<T: NlType, P: Wire>(m: NlmsghdrView<T, P::V>, order: ByteOrder)
    ensures
        ({
            let w = msg_wire::<T, P>(m, order);
            let payload = match m.nl_payload {
                Some(v) => P::wire(v, order),
                None => Seq::empty(),
            };
            let end = 16 + payload.len();
            &&& end <= w.len() < end + 4
            &&& w.len() % 4 == 0
            &&& w.subrange(0, 4) == u32_bytes(order, m.nl_len)
            &&& w.subrange(4, 6) == u16_bytes(order, m.nl_type.code())
            &&& w.subrange(6, 8) == u16_bytes(order, flag_bits(m.nl_flags))
            &&& w.subrange(8, 12) == u32_bytes(order, m.nl_seq)
            &&& w.subrange(12, 16) == u32_bytes(order, m.nl_pid)
            &&& w.subrange(16, end as int) == payload
            &&& forall|i: int| end <= i < w.len() ==> #[trigger] w[i] == 0
        }),
{
    let w = msg_wire::<T, P>(m, order);
    let payload = payload_wire::<P>(m.nl_payload, order);
    let end = 16 + payload.len();
    lemma_msg_wire_len::<T, P>(m, order);
    law_u32_bytes(order, m.nl_len);
    law_u16_bytes(order, m.nl_type.code());
    law_u16_bytes(order, flag_bits(m.nl_flags));
    law_u32_bytes(order, m.nl_seq);
    law_u32_bytes(order, m.nl_pid);
    lemma_header_layout(
        u32_bytes(order, m.nl_len),
        u16_bytes(order, m.nl_type.code()),
        u16_bytes(order, flag_bits(m.nl_flags)),
        u32_bytes(order, m.nl_seq),
        u32_bytes(order, m.nl_pid),
        payload,
        padding(end),
    );
}

proof fn lemma_header_layout(
    len: Seq<u8>,
    code: Seq<u8>,
    bits: Seq<u8>,
    seq: Seq<u8>,
    pid: Seq<u8>,
    payload: Seq<u8>,
    pad: Seq<u8>,
)
    requires
        len.len() == 4,
        code.len() == 2,
        bits.len() == 2,
        seq.len() == 4,
        pid.len() == 4,
    ensures
        ({
            let w = len + code + bits + seq + pid + payload + pad;
            let end = 16 + payload.len();
            &&& w.len() == end + pad.len()
            &&& w.subrange(0, 4) == len
            &&& w.subrange(4, 6) == code
            &&& w.subrange(6, 8) == bits
            &&& w.subrange(8, 12) == seq
            &&& w.subrange(12, 16) == pid
            &&& w.subrange(16, end as int) == payload
            &&& w.skip(end as int) == pad
            &&& forall|i: int| end <= i < w.len() ==> #[trigger] w[i] == pad[i - end]
        }),
{
    let w = len + code + bits + seq + pid + payload + pad;
    let end = 16 + payload.len();
    assert(w.subrange(0, 4) =~= len);
    assert(w.subrange(4, 6) =~= code);
    assert(w.subrange(6, 8) =~= bits);
    assert(w.subrange(8, 12) =~= seq);
    assert(w.subrange(12, 16) =~= pid);
    assert(w.subrange(16, end as int) =~= payload);
    assert(w.skip(end as int) =~= pad);
}

/// The number that stands at a place is read from that place alone.
proof fn lemma_read_at(order: ByteOrder, s: Seq<u8>, at: int)
    requires
        0 <= at,
    ensures
        at + 2 <= s.len() ==> u16_of(order, s.skip(at)) == u16_of(order, s.subrange(at, at + 2)),
        at + 4 <= s.len() ==> u32_of(order, s.skip(at)) == u32_of(order, s.subrange(at, at + 4)),
{
    if at + 2 <= s.len() {
        law_u16_of(order, s.skip(at));
        law_u16_of(order, s.subrange(at, at + 2));
    }
    if at + 4 <= s.len() {
        law_u32_of(order, s.skip(at));
        law_u32_of(order, s.subrange(at, at + 4));
    }
}

/// Bytes that end before the header does, or before the length that it says, are no message, and
/// neither are bytes whose header says less than its own length.
pub proof fn law_no_message<T: NlType, P: Nl>(order: ByteOrder, u: Seq<u8>)
    ensures
        u.len() < 16 ==> read_msg::<T, P>(order, u) == Err::<(NlmsghdrView<T, P::V>, nat), DeError>(
            DeError::UnexpectedEOB,
        ),
        u.len() >= 16 && u32_of(order, u) < 16 ==> read_msg::<T, P>(order, u) == Err::<
            (NlmsghdrView<T, P::V>, nat),
            DeError,
        >(DeError::BadLength),
        u.len() >= 16 && u32_of(order, u) > u.len() ==> read_msg::<T, P>(order, u) == Err::<
            (NlmsghdrView<T, P::V>, nat),
            DeError,
        >(DeError::UnexpectedEOB),
{
}

/// Any other bytes are a message just where the payload, if there is one, is read, and the failure
/// to read it is the failure to read the message. Each field is read from its place. The message
/// takes its length and the padding behind it, as much of that as there is.
pub proof fn law_message_read<T: NlType, P: Nl>(order: ByteOrder, u: Seq<u8>, len: int)
    requires
        16 <= len <= u.len(),
        u32_of(order, u) == len,
    ensures
        ({
            let payload = P::read(order, u.subrange(16, len));
            let r = read_msg::<T, P>(order, u);
            &&& len > 16 && payload is Err ==> r == Err::<(NlmsghdrView<T, P::V>, nat), DeError>(payload->Err_0)
            &&& len == 16 || payload is Ok ==> (r matches Ok((m, n)) && {
                &&& m.nl_len == len
                &&& m.nl_type == T::of_code(u16_of(order, u.subrange(4, 6)))
                &&& m.nl_flags == flags_of(u16_of(order, u.subrange(6, 8)))
                &&& m.nl_seq == u32_of(order, u.subrange(8, 12))
                &&& m.nl_pid == u32_of(order, u.subrange(12, 16))
                &&& m.nl_payload == (if len == 16 {
                    None
                } else {
                    Some(payload->Ok_0)
                })
                &&& n == (if len + (4 - len % 4) % 4 <= u.len() {
                    len + (4 - len % 4) % 4
                } else {
                    u.len() as int
                })
            })
        }),
{
    lemma_read_at(order, u, 4);
    lemma_read_at(order, u, 6);
    lemma_read_at(order, u, 8);
    lemma_read_at(order, u, 12);
}

/// A message is read back as it is where its length field says its length, its type and its flags are
/// read back, and so is its payload, which is not empty.
pub proof fn law_message_kept<T: NlType, P: Nl>(m: NlmsghdrView<T, P::V>)
    requires
        T::of_code(m.nl_type.code()) == m.nl_type,
        flags_of(flag_bits(m.nl_flags)) == m.nl_flags,
        m.nl_payload matches Some(v) ==> P::kept(v) && P::wire_len(v) > 0 && m.nl_len == 16 + P::wire_len(v),
        m.nl_payload is None ==> m.nl_len == 16,
    ensures
        msg_kept::<T, P>(m),
{
}

/// A message stands for its own fields, and an attribute and a generic netlink message for theirs.
pub proof fn law_fields_seen<T, C, P: View>(m: Nlmsghdr<T, P>, a: Nlattr<T>, g: Genlmsghdr<C, T>, e: Nlmsgerr<T>)
    ensures
        m@.nl_len == m.nl_len,
        m@.nl_type == m.nl_type,
        m@.nl_flags == m.nl_flags@,
        m@.nl_seq == m.nl_seq,
        m@.nl_pid == m.nl_pid,
        m.nl_payload matches Some(p) ==> m@.nl_payload == Some(p@),
        m.nl_payload is None ==> m@.nl_payload is None,
        a@.nla_len == a.nla_len,
        a@.nla_type == a.nla_type,
        a@.payload == a.payload@,
        g@.cmd == g.cmd,
        g@.version == g.version,
        g@.attrs.len() == g.attrs@.len(),
        forall|i: int| 0 <= i < g.attrs@.len() ==> #[trigger] g@.attrs[i] == g.attrs@[i]@,
        e@.error == e.error,
        e@.nlmsg == e.nlmsg@,
{
}

/// Integers and raw bytes as payloads: their own bytes, which are read back. Of more bytes than an
/// integer has the first count, and fewer are none.
pub proof fn law_plain_payloads(order: ByteOrder, short: u16, long: u32, raw: Seq<u8>)
    ensures
        u16::wire(short, order) == u16_bytes(order, short),
        u32::wire(long, order) == u32_bytes(order, long),
        <Vec<u8> as Wire>::wire(raw, order) == raw,
        u16::kept(short),
        u32::kept(long),
        <Vec<u8> as Nl>::kept(raw),
        <Vec<u8> as Nl>::read(order, raw) == Ok::<Seq<u8>, DeError>(raw),
        raw.len() < 2 ==> u16::read(order, raw) == Err::<u16, DeError>(DeError::UnexpectedEOB),
        raw.len() >= 2 ==> u16::read(order, raw) == Ok::<u16, DeError>(u16_of(order, raw)),
        raw.len() < 4 ==> u32::read(order, raw) == Err::<u32, DeError>(DeError::UnexpectedEOB),
        raw.len() >= 4 ==> u32::read(order, raw) == Ok::<u32, DeError>(u32_of(order, raw)),
{
}

/// A string as a payload: its UTF-8 and a zero byte. It is read from UTF-8 with or without one zero
/// byte behind it, and from nothing else.
pub proof fn law_text_payloads(order: ByteOrder, text: Seq<char>, body: Seq<u8>)
    ensures
        text_wire(text).len() == encode_utf8(text).len() + 1,
        text_wire(text).last() == 0,
        text_wire(text).drop_last() == encode_utf8(text),
        <&str as Wire>::wire(text, order) == text_wire(text),
        <String as Wire>::wire(text, order) == text_wire(text),
        String::kept(text),
        String::read(order, body.push(0)) == (if valid_utf8(body) {
            Ok::<Seq<char>, DeError>(decode_utf8(body))
        } else {
            Err::<Seq<char>, DeError>(DeError::BadString)
        }),
        body.len() == 0 || body.last() != 0 ==> String::read(order, body) == (if valid_utf8(body) {
            Ok::<Seq<char>, DeError>(decode_utf8(body))
        } else {
            Err::<Seq<char>, DeError>(DeError::BadString)
        }),
{
    assert(text_wire(text).drop_last() =~= encode_utf8(text));
    assert(body.push(0).drop_last() =~= body);
}

/// A string that is written is the string that is read.
pub proof fn law_text_kept(order: ByteOrder, text: Seq<char>)
    ensures
        String::read(order, text_wire(text)) == Ok::<Seq<char>, DeError>(text),
{
    String::law_round_trip(text, order);
}

/// The bytes of an attribute, place by place: length, type, value, and zero bytes up to a multiple of
/// four.
pub proof fn law_attr_layout<T: NlAttrType>(a: NlattrView<T>, order: ByteOrder)
    ensures
        ({
            let w = attr_wire(a, order);
            let end = 4 + a.payload.len();
            &&& end <= w.len() < end + 4
            &&& w.len() % 4 == 0
            &&& w.subrange(0, 2) == u16_bytes(order, a.nla_len)
            &&& w.subrange(2, 4) == u16_bytes(order, a.nla_type.code())
            &&& w.subrange(4, end as int) == a.payload
            &&& forall|i: int| end <= i < w.len() ==> #[trigger] w[i] == 0
        }),
{
    let w = attr_wire(a, order);
    let end = 4 + a.payload.len();
    law_u16_bytes(order, a.nla_len);
    law_u16_bytes(order, a.nla_type.code());
    assert(w.subrange(0, 2) =~= u16_bytes(order, a.nla_len));
    assert(w.subrange(2, 4) =~= u16_bytes(order, a.nla_type.code()));
    assert(w.subrange(4, end as int) =~= a.payload);
}

/// Attributes are written one behind the other: two lists as one are the bytes of the first and then
/// those of the second.
pub proof fn law_attrs_joined<T: NlAttrType>(front: Seq<NlattrView<T>>, back: Seq<NlattrView<T>>, order: ByteOrder)
    ensures
        attrs_wire(front + back, order) == attrs_wire(front, order) + attrs_wire(back, order),
        attrs_wire(front, order).len() == attrs_len(front),
        front.len() == 0 ==> attrs_wire(front, order).len() == 0,
        front.len() == 1 ==> attrs_wire(front, order) == attr_wire(front[0], order),
    decreases front.len(),
{
    lemma_attrs_wire_len(front, order);
    if front.len() == 0 {
        assert(front + back =~= back);
        assert(attrs_wire(front, order) + attrs_wire(back, order) =~= attrs_wire(back, order));
    } else {
        let tail = front.drop_first();
        law_attrs_joined(tail, back, order);
        assert((front + back).drop_first() =~= tail + back);
        assert((front + back)[0] == front[0]);
        lemma_joined(attr_wire(front[0], order), attrs_wire(tail, order), attrs_wire(back, order));
        if front.len() == 1 {
            assert(attr_wire(front[0], order) + attrs_wire(tail, order) =~= attr_wire(front[0], order));
        }
    }
}

proof fn lemma_joined(a: Seq<u8>, b: Seq<u8>, c: Seq<u8>)
    ensures
        a + (b + c) == (a + b) + c,
{
    assert(a + (b + c) =~= (a + b) + c);
}

/// No bytes are no attributes. Bytes that end before the header of an attribute does, or before the
/// length that it says, are not attributes, and neither are bytes with a header that says less than
/// its own length.
pub proof fn law_no_attrs<T: NlAttrType>(order: ByteOrder, bytes: Seq<u8>)
    ensures
        bytes.len() == 0 ==> read_attrs::<T>(order, bytes) == Ok::<Seq<NlattrView<T>>, DeError>(Seq::empty()),
        0 < bytes.len() < 4 ==> read_attrs::<T>(order, bytes) == Err::<Seq<NlattrView<T>>, DeError>(
            DeError::UnexpectedEOB,
        ),
        bytes.len() >= 4 && u16_of(order, bytes) < 4 ==> read_attrs::<T>(order, bytes) == Err::<
            Seq<NlattrView<T>>,
            DeError,
        >(DeError::BadLength),
        bytes.len() >= 4 && u16_of(order, bytes) > bytes.len() ==> read_attrs::<T>(order, bytes) == Err::<
            Seq<NlattrView<T>>,
            DeError,
        >(DeError::UnexpectedEOB),
{
}

/// The bytes that an attribute takes: its length and its padding, or all that there are.
proof fn lemma_padded(len: int, total: int, n: int)
    requires
        4 <= len <= total,
        n == (if len + (4 - len % 4) % 4 <= total {
            len + (4 - len % 4) % 4
        } else {
            total
        }),
    ensures
        n == min(align4(len as nat), total as nat),
{
}

/// Bytes that start with an attribute stand for it and for what the others stand for.
proof fn lemma_attrs_step<T: NlAttrType>(order: ByteOrder, bytes: Seq<u8>, len: int, n: int)
    requires
        4 <= len <= bytes.len(),
        u16_of(order, bytes) == len,
        n == min(align4(len as nat), bytes.len()),
    ensures
        read_attrs::<T>(order, bytes) == (match read_attrs::<T>(order, bytes.skip(n)) {
            Ok(rest) => Ok::<Seq<NlattrView<T>>, DeError>(
                seq![
                    NlattrView {
                        nla_len: len as u16,
                        nla_type: T::of_code(u16_of(order, bytes.skip(2))),
                        payload: bytes.subrange(4, len),
                    },
                ] + rest,
            ),
            Err(e) => Err::<Seq<NlattrView<T>>, DeError>(e),
        }),
{
}

proof fn lemma_behind_first<T>(first: NlattrView<T>, rest: Seq<NlattrView<T>>)
    ensures
        (seq![first] + rest).len() == rest.len() + 1,
        (seq![first] + rest)[0] == first,
        (seq![first] + rest).skip(1) == rest,
{
    assert((seq![first] + rest).skip(1) =~= rest);
}

/// Any other bytes start with an attribute, each part of which is read from its place. What follows
/// behind the attribute and its padding, as much of that as there is, is read in the same way.
pub proof fn law_attrs_read<T: NlAttrType>(order: ByteOrder, bytes: Seq<u8>, len: int, n: int)
    requires
        4 <= len <= bytes.len(),
        u16_of(order, bytes) == len,
        n == (if len + (4 - len % 4) % 4 <= bytes.len() {
            len + (4 - len % 4) % 4
        } else {
            bytes.len() as int
        }),
    ensures
        ({
            let rest = read_attrs::<T>(order, bytes.skip(n));
            let r = read_attrs::<T>(order, bytes);
            &&& rest is Err ==> r == rest
            &&& rest is Ok ==> (r matches Ok(attrs) && {
                &&& attrs.len() == rest->Ok_0.len() + 1
                &&& attrs[0].nla_len == len
                &&& attrs[0].nla_type == T::of_code(u16_of(order, bytes.subrange(2, 4)))
                &&& attrs[0].payload == bytes.subrange(4, len)
                &&& attrs.skip(1) == rest->Ok_0
            })
        }),
{
    lemma_read_at(order, bytes, 2);
    lemma_padded(len, bytes.len() as int, n);
    lemma_attrs_step::<T>(order, bytes, len, n);
    let rest = read_attrs::<T>(order, bytes.skip(n));
    if rest is Ok {
        lemma_behind_first(
            NlattrView {
                nla_len: len as u16,
                nla_type: T::of_code(u16_of(order, bytes.skip(2))),
                payload: bytes.subrange(4, len),
            },
            rest->Ok_0,
        );
    }
}

/// Attributes whose length fields say their lengths, and whose types are read back, are kept.
pub proof fn law_attrs_kept<T: NlAttrType>(attrs: Seq<NlattrView<T>>)
    requires
        forall|i: int|
            0 <= i < attrs.len() ==> (#[trigger] attrs[i]).nla_len == 4 + attrs[i].payload.len() && T::of_code(
                attrs[i].nla_type.code(),
            ) == attrs[i].nla_type,
    ensures
        attrs_kept(attrs),
{
}

/// What is found for a number is the value of the first attribute whose type has that number, and
/// nothing is found just where no type has it.
pub proof fn law_attr_found<T: NlAttrType>(attrs: Seq<NlattrView<T>>, code: u16)
    ensures
        find_attr(attrs, code) is None <==> forall|k: int|
            0 <= k < attrs.len() ==> (#[trigger] attrs[k]).nla_type.code() != code,
        find_attr(attrs, code) matches Some(payload) ==> exists|i: int|
            {
                &&& 0 <= i < attrs.len()
                &&& (#[trigger] attrs[i]).nla_type.code() == code
                &&& attrs[i].payload == payload
                &&& forall|k: int| 0 <= k < i ==> (#[trigger] attrs[k]).nla_type.code() != code
            },
    decreases attrs.len(),
{
    if attrs.len() > 0 && attrs[0].nla_type.code() != code {
        let tail = attrs.drop_first();
        law_attr_found(tail, code);
        if find_attr(attrs, code) is None {
            assert forall|k: int| 0 <= k < attrs.len() implies (#[trigger] attrs[k]).nla_type.code() != code by {
                if k > 0 {
                    assert(tail[k - 1] == attrs[k]);
                }
            }
        } else {
            let i = choose|i: int|
                {
                    &&& 0 <= i < tail.len()
                    &&& (#[trigger] tail[i]).nla_type.code() == code
                    &&& tail[i].payload == find_attr(attrs, code)->0
                    &&& forall|k: int| 0 <= k < i ==> (#[trigger] tail[k]).nla_type.code() != code
                };
            assert(attrs[i + 1] == tail[i]);
            assert forall|k: int| 0 <= k < i + 1 implies (#[trigger] attrs[k]).nla_type.code() != code by {
                if k > 0 {
                    assert(tail[k - 1] == attrs[k]);
                }
            }
        }
    } else if attrs.len() > 0 {
        assert(attrs[0].nla_type.code() == code);
        assert(attrs[0].payload == find_attr(attrs, code)->0);
    }
}

/// What an attribute is looked up as is read from the value that is found, and a type that is not
/// there is its own failure.
pub proof fn law_attr_read_as<T: NlAttrType, R: Nl, S: NlAttrType>(
    order: ByteOrder,
    attrs: Seq<NlattrView<T>>,
    attr: T,
)
    ensures
        find_attr(attrs, attr.code()) matches Some(payload) ==> {
            &&& attr_payload_as::<T, R>(order, attrs, attr) == R::read(order, payload)
            &&& nested_attributes::<T, S>(order, attrs, attr) == read_attrs::<S>(order, payload)
        },
        find_attr(attrs, attr.code()) is None ==> {
            &&& attr_payload_as::<T, R>(order, attrs, attr) == Err::<R::V, DeError>(DeError::NoAttribute)
            &&& nested_attributes::<T, S>(order, attrs, attr) == Err::<Seq<NlattrView<S>>, DeError>(
                DeError::NoAttribute,
            )
        },
{
}

/// A generic netlink message: command, version, two zero bytes, attributes. It is read from its
/// places, the third and the fourth byte do not count, and the failure to read the attributes is the
/// failure to read the message.
pub proof fn law_genl_layout<C: Cmd, T: NlAttrType>(v: GenlmsghdrView<C, T>, order: ByteOrder, bytes: Seq<u8>)
    ensures
        ({
            let w = Genlmsghdr::<C, T>::wire(v, order);
            &&& w.len() >= 4
            &&& w[0] == v.cmd.code()
            &&& w[1] == v.version
            &&& w[2] == 0
            &&& w[3] == 0
            &&& w.skip(4) == attrs_wire(v.attrs, order)
        }),
        Genlmsghdr::<C, T>::wire_len(v) == 4 + attrs_len(v.attrs),
        C::of_code(v.cmd.code()) == v.cmd && attrs_kept(v.attrs) ==> Genlmsghdr::<C, T>::kept(v),
        bytes.len() < 4 ==> Genlmsghdr::<C, T>::read(order, bytes) == Err::<GenlmsghdrView<C, T>, DeError>(
            DeError::UnexpectedEOB,
        ),
        bytes.len() >= 4 ==> (match read_attrs::<T>(order, bytes.skip(4)) {
            Ok(attrs) => Genlmsghdr::<C, T>::read(order, bytes) matches Ok(m) && m.cmd == C::of_code(bytes[0])
                && m.version == bytes[1] && m.attrs == attrs,
            Err(e) => Genlmsghdr::<C, T>::read(order, bytes) == Err::<GenlmsghdrView<C, T>, DeError>(e),
        }),
{
    assert(Genlmsghdr::<C, T>::wire(v, order).skip(4) =~= attrs_wire(v.attrs, order));
}

/// An error message: the code, the header of the request, and what is sent back of its payload.
pub proof fn law_error_layout<T: NlType>(v: NlmsgerrView<T>, order: ByteOrder)
    ensures
        ({
            let w = Nlmsgerr::<T>::wire(v, order);
            let payload = match v.nlmsg.nl_payload {
                Some(bytes) => bytes,
                None => Seq::empty(),
            };
            &&& w.len() == 20 + payload.len()
            &&& Nlmsgerr::<T>::wire_len(v) == w.len()
            &&& w.subrange(0, 4) == u32_bytes(order, v.error as u32)
            &&& w.subrange(4, 8) == u32_bytes(order, v.nlmsg.nl_len)
            &&& w.subrange(8, 10) == u16_bytes(order, v.nlmsg.nl_type.code())
            &&& w.subrange(10, 12) == u16_bytes(order, flag_bits(v.nlmsg.nl_flags))
            &&& w.subrange(12, 16) == u32_bytes(order, v.nlmsg.nl_seq)
            &&& w.subrange(16, 20) == u32_bytes(order, v.nlmsg.nl_pid)
            &&& w.skip(20) == payload
        }),
        T::of_code(v.nlmsg.nl_type.code()) == v.nlmsg.nl_type && flags_of(flag_bits(v.nlmsg.nl_flags))
            == v.nlmsg.nl_flags && !(v.nlmsg.nl_payload matches Some(bytes) && bytes.len() == 0) ==> Nlmsgerr::<
            T,
        >::kept(v),
{
    let w = Nlmsgerr::<T>::wire(v, order);
    let code = u32_bytes(order, v.error as u32);
    let payload = payload_wire::<Vec<u8>>(v.nlmsg.nl_payload, order);
    let len = u32_bytes(order, v.nlmsg.nl_len);
    let ty = u16_bytes(order, v.nlmsg.nl_type.code());
    let bits = u16_bytes(order, flag_bits(v.nlmsg.nl_flags));
    let seq = u32_bytes(order, v.nlmsg.nl_seq);
    let pid = u32_bytes(order, v.nlmsg.nl_pid);
    let rest = len + ty + bits + seq + pid + payload + Seq::<u8>::empty();
    law_u32_bytes(order, v.error as u32);
    law_u32_bytes(order, v.nlmsg.nl_len);
    law_u16_bytes(order, v.nlmsg.nl_type.code());
    law_u16_bytes(order, flag_bits(v.nlmsg.nl_flags));
    law_u32_bytes(order, v.nlmsg.nl_seq);
    law_u32_bytes(order, v.nlmsg.nl_pid);
    lemma_header_layout(len, ty, bits, seq, pid, payload, Seq::empty());
    lemma_behind_code(w, code, len + ty + bits + seq + pid, payload, rest);
}

proof fn lemma_behind_code(w: Seq<u8>, code: Seq<u8>, header: Seq<u8>, payload: Seq<u8>, rest: Seq<u8>)
    requires
        code.len() == 4,
        header.len() == 16,
        w == code + header + payload,
        rest == header + payload + Seq::<u8>::empty(),
    ensures
        w.subrange(0, 4) == code,
        w.skip(20) == payload,
        w.len() == 4 + rest.len(),
        w.subrange(4, 8) == rest.subrange(0, 4),
        w.subrange(8, 10) == rest.subrange(4, 6),
        w.subrange(10, 12) == rest.subrange(6, 8),
        w.subrange(12, 16) == rest.subrange(8, 12),
        w.subrange(16, 20) == rest.subrange(12, 16),
{
    assert(w =~= code + rest);
    assert(w.subrange(0, 4) =~= code);
    assert(w.skip(20) =~= payload);
    assert(w.subrange(4, 8) =~= rest.subrange(0, 4));
    assert(w.subrange(8, 10) =~= rest.subrange(4, 6));
    assert(w.subrange(10, 12) =~= rest.subrange(6, 8));
    assert(w.subrange(12, 16) =~= rest.subrange(8, 12));
    assert(w.subrange(16, 20) =~= rest.subrange(12, 16));
}

/// An error message is read from its places, whatever length the header of the request says. Fewer
/// bytes than a code and a header are none.
pub proof fn law_error_read<T: NlType>(order: ByteOrder, bytes: Seq<u8>)
    ensures
        bytes.len() < 20 ==> Nlmsgerr::<T>::read(order, bytes) == Err::<NlmsgerrView<T>, DeError>(
            DeError::UnexpectedEOB,
        ),
        bytes.len() >= 20 ==> (Nlmsgerr::<T>::read(order, bytes) matches Ok(v) && {
            &&& v.error == u32_of(order, bytes.subrange(0, 4)) as i32
            &&& v.nlmsg.nl_len == u32_of(order, bytes.subrange(4, 8))
            &&& v.nlmsg.nl_type == T::of_code(u16_of(order, bytes.subrange(8, 10)))
            &&& v.nlmsg.nl_flags == flags_of(u16_of(order, bytes.subrange(10, 12)))
            &&& v.nlmsg.nl_seq == u32_of(order, bytes.subrange(12, 16))
            &&& v.nlmsg.nl_pid == u32_of(order, bytes.subrange(16, 20))
            &&& v.nlmsg.nl_payload == (if bytes.len() == 20 {
                None
            } else {
                Some(bytes.skip(20))
            })
        }),
{
    if bytes.len() >= 20 {
        let header = bytes.skip(4);
        assert(bytes.skip(0) =~= bytes);
        assert(header.skip(0) =~= header);
        lemma_read_at(order, bytes, 0);
        lemma_read_at(order, header, 0);
        lemma_read_at(order, header, 4);
        lemma_read_at(order, header, 6);
        lemma_read_at(order, header, 8);
        lemma_read_at(order, header, 12);
        assert(header.subrange(0, 4) =~= bytes.subrange(4, 8));
        assert(header.subrange(4, 6) =~= bytes.subrange(8, 10));
        assert(header.subrange(6, 8) =~= bytes.subrange(10, 12));
        assert(header.subrange(8, 12) =~= bytes.subrange(12, 16));
        assert(header.subrange(12, 16) =~= bytes.subrange(16, 20));
    }
}

} // verus!
