//! What holds of the library as a whole.
//!
//! Each law here is stated over the functions that the contracts of the executable functions speak
//! of, so it holds of those functions. The modules below state what each operation does in terms of
//! its arguments and its result: [`configure`] and [`exchange`] for the socket, [`names`] for asking
//! the controller, [`polling`] for the event loop, and [`values`] and [`format`] for messages.

use crate::buffer::{min, StreamView};
use crate::bytes::{law_u32_round_trip, u16_bytes, u32_bytes, ByteOrder};
use crate::consts::{
    Code16, CtrlAttr, CtrlAttrMcastGrp, CtrlCmd, GenlId, NlAttrType, NlType, NlmF, Rtm,
};
use crate::err::{DeError, NlErrorView, Nlmsgerr, NlmsgerrView};
use crate::genl::Genlmsghdr;
use crate::nl::{
    flag_bits, flags_below, flags_of, law_msg_round_trip, lemma_msg_wire_len, msg_kept, msg_size,
    msg_wire, read_msg, Nl, NlmsghdrView,
};
use crate::nlattr::{
    attr_kept, attrs_kept, attrs_wire, find_attr, law_attrs_round_trip, read_attrs, NlattrView,
};
use crate::payload::text_wire;
use crate::resolve::{
    family_id, family_next, family_request, first_group, group_id, mcast_group,
    name_too_long, no_group, CtrlMsg, CtrlMsgView, FamilyNext, FamilyState,
};
use crate::setup::{
    bind_next, blocking_flags, flags_block, join_call, nonblocking_flags, BindState, FlagsState, Next,
};
use crate::socket::{
    filled, is_ack, received_ack, received_nl, sent, stamped, taken, SocketView,
};
use crate::sys::{is_nonblock_flag, SysCall, SysReply};
use crate::tokio::{new_next, nothing_left, polled, AsyncView, NewState, PollView};
use vstd::prelude::*;

pub mod configure;
pub mod exchange;
pub mod format;
pub mod names;
pub mod polling;
pub mod values;

verus! {

/// Messages on the wire, one behind the other.
pub open spec fn stream_wire<T: NlType, P: Nl>(msgs: Seq<NlmsghdrView<T, P::V>>, order: ByteOrder) -> Seq<u8>
    decreases msgs.len(),
{
    if msgs.len() == 0 {
        Seq::empty()
    } else {
        msg_wire::<T, P>(msgs[0], order) + stream_wire::<T, P>(msgs.drop_first(), order)
    }
}

/// Whether every message is read back as it is and comes from the sender `pid`.
pub open spec fn all_kept_from<T: NlType, P: Nl>(msgs: Seq<NlmsghdrView<T, P::V>>, pid: u32) -> bool {
    forall|i: int|
        0 <= i < msgs.len() ==> msg_kept::<T, P>(#[trigger] msgs[i]) && msgs[i].nl_pid == pid
}

/// The socket when `n` messages have been taken from its buffer, and what was handed out.
pub open spec fn taken_times<T: NlType, P: Nl>(s: SocketView, n: nat) -> (
    SocketView,
    Seq<Result<NlmsghdrView<T, P::V>, NlErrorView>>,
)
    decreases n,
{
    if n == 0 {
        (s, Seq::empty())
    } else {
        let (one, first) = received_nl::<T, P>(s, None);
        let (all, rest) = taken_times::<T, P>(one, (n - 1) as nat);
        (all, seq![first] + rest)
    }
}

/// The messages as what receiving them hands out.
pub open spec fn handed_out<T, V>(msgs: Seq<NlmsghdrView<T, V>>) -> Seq<Result<NlmsghdrView<T, V>, NlErrorView>> {
    Seq::new(msgs.len(), |i: int| Ok::<NlmsghdrView<T, V>, NlErrorView>(msgs[i]))
}

/// The first of the buffered messages is handed out, and the others stay buffered.
proof fn lemma_first_taken<T: NlType, P: Nl>(s: SocketView, m: NlmsghdrView<T, P::V>, rest: Seq<u8>)
    requires
        msg_kept::<T, P>(m),
        s.buffer is Some,
        s.buffer->0.unread == msg_wire::<T, P>(m, s.order) + rest,
        s.pid is None || s.pid == Some(m.nl_pid),
    ensures
        ({
            let u = s.buffer->0.unread;
            taken::<T, P>(s) == (
                SocketView {
                    pid: Some(m.nl_pid),
                    buffer: if rest.len() == 0 {
                        None
                    } else {
                        Some(StreamView { unread: rest, marked: u })
                    },
                    ..s
                },
                Ok::<NlmsghdrView<T, P::V>, NlErrorView>(m),
            )
        }),
{
    law_msg_round_trip::<T, P>(m, s.order, rest);
}

/// Taking once more hands out one message more.
proof fn lemma_taken_more<T: NlType, P: Nl>(s: SocketView, one: SocketView, msgs: Seq<NlmsghdrView<T, P::V>>)
    requires
        msgs.len() > 0,
        received_nl::<T, P>(s, None) == (one, Ok::<NlmsghdrView<T, P::V>, NlErrorView>(msgs[0])),
        taken_times::<T, P>(one, (msgs.len() - 1) as nat).1 == handed_out(msgs.drop_first()),
    ensures
        taken_times::<T, P>(s, msgs.len()) == (
            taken_times::<T, P>(one, (msgs.len() - 1) as nat).0,
            handed_out(msgs),
        ),
{
    assert(seq![Ok::<NlmsghdrView<T, P::V>, NlErrorView>(msgs[0])] + handed_out(msgs.drop_first()) =~= handed_out(
        msgs,
    ));
}

/// Messages that are buffered one behind the other are handed out one after the other, each as it
/// was written, and then nothing is left.
#[verifier::rlimit(40)]
pub proof fn law_stream_received<T: NlType, P: Nl>(s: SocketView, msgs: Seq<NlmsghdrView<T, P::V>>, pid: u32)
    requires
        msgs.len() > 0,
        all_kept_from::<T, P>(msgs, pid),
        s.buffer is Some,
        s.buffer->0.unread == stream_wire::<T, P>(msgs, s.order),
        s.pid is None || s.pid == Some(pid),
    ensures
        taken_times::<T, P>(s, msgs.len()) == (
            SocketView { pid: Some(pid), buffer: None, ..s },
            handed_out(msgs),
        ),
    decreases msgs.len(),
{
    let first = msgs[0];
    let tail = msgs.drop_first();
    let rest = stream_wire::<T, P>(tail, s.order);
    lemma_first_taken::<T, P>(s, first, rest);
    let one = SocketView {
        pid: Some(pid),
        buffer: if rest.len() == 0 {
            None
        } else {
            Some(StreamView { unread: rest, marked: s.buffer->0.unread })
        },
        ..s
    };
    if tail.len() == 0 {
        assert(taken_times::<T, P>(one, 0) == (one, Seq::<Result<NlmsghdrView<T, P::V>, NlErrorView>>::empty()));
        assert(handed_out(tail) =~= Seq::<Result<NlmsghdrView<T, P::V>, NlErrorView>>::empty());
    } else {
        assert(rest.len() > 0) by {
            lemma_msg_wire_len::<T, P>(tail[0], s.order);
        }
        assert forall|i: int| 0 <= i < tail.len() implies msg_kept::<T, P>(#[trigger] tail[i]) && tail[i].nl_pid == pid by {
            assert(tail[i] == msgs[i + 1]);
        }
        law_stream_received::<T, P>(one, tail, pid);
    }
    lemma_taken_more::<T, P>(s, one, msgs);
}

/// What `recv` leaves in the buffer is what was sent: where a socket with nothing buffered receives
/// messages one behind the other, the first is handed out and the others stay buffered.
pub proof fn law_first_received<T: NlType, P: Nl>(
    s: SocketView,
    msgs: Seq<NlmsghdrView<T, P::V>>,
    pid: u32,
    ret: isize,
    mem: Seq<u8>,
)
    requires
        msgs.len() > 0,
        all_kept_from::<T, P>(msgs, pid),
        s.buffer is None,
        s.pid is None || s.pid == Some(pid),
        0 < ret <= mem.len(),
        mem.take(ret as int) == stream_wire::<T, P>(msgs, s.order),
    ensures
        ({
            let (after, r) = received_nl::<T, P>(s, Some((ret, mem)));
            &&& r == Ok::<NlmsghdrView<T, P::V>, NlErrorView>(msgs[0])
            &&& after.pid == Some(pid)
            &&& msgs.len() == 1 ==> after.buffer is None
            &&& msgs.len() > 1 ==> after.buffer is Some && after.buffer->0.unread == stream_wire::<T, P>(
                msgs.drop_first(),
                s.order,
            )
        }),
{
    let tail = msgs.drop_first();
    let rest = stream_wire::<T, P>(tail, s.order);
    let full = filled(s, ret, mem)->Ok_0;
    lemma_first_taken::<T, P>(full, msgs[0], rest);
    if tail.len() > 0 {
        lemma_msg_wire_len::<T, P>(tail[0], s.order);
    }
}

/// Receiving changes neither the descriptor nor the number of the last request. A message that is
/// handed out fixes its sender, a sender that is fixed stays, and only its messages are handed out.
pub proof fn law_sender_fixed<T: NlType, P: Nl>(s: SocketView, received: Option<(isize, Seq<u8>)>)
    ensures
        ({
            let (after, r) = received_nl::<T, P>(s, received);
            &&& after.fd == s.fd
            &&& after.order == s.order
            &&& after.seq == s.seq
            &&& r matches Ok(msg) ==> after.pid == Some(msg.nl_pid)
            &&& s.pid is Some || r is Err ==> after.pid == s.pid
        }),
{
}

/// The bytes that the next message is read from: what is buffered, or where nothing is what `recv`
/// left.
pub open spec fn pending(s: SocketView, received: Option<(isize, Seq<u8>)>) -> Seq<u8> {
    match s.buffer {
        Some(b) => b.unread,
        None => {
            let (ret, mem) = received->0;
            mem.take(min(ret as nat, mem.len()) as int)
        },
    }
}

/// Whether there are bytes to read a message from: some are buffered, or `recv` has left some.
pub open spec fn has_pending(s: SocketView, received: Option<(isize, Seq<u8>)>) -> bool {
    s.buffer is Some || (received matches Some((ret, _)) && ret > 0)
}

/// A failure to read a message leaves all that it was to be read from.
pub proof fn law_failed_read_stays<T: NlType, P: Nl>(s: SocketView, received: Option<(isize, Seq<u8>)>)
    requires
        has_pending(s, received),
        received_nl::<T, P>(s, received).1 matches Err(NlErrorView::De(_)),
    ensures
        ({
            let after = received_nl::<T, P>(s, received).0;
            &&& after.buffer is Some
            &&& pending(after, None) == pending(s, received)
            &&& received_nl::<T, P>(after, None).1 == received_nl::<T, P>(s, received).1
        }),
{
}

/// Asking for an acknowledgement fails for want of one or for its number, and for nothing else.
pub proof fn law_ack_failures(s: SocketView, received: Option<(isize, Seq<u8>)>)
    ensures
        received_ack(s, received).1 matches Err(e) ==> e == NlErrorView::NoAck || e == NlErrorView::BadSeq,
{
}

/// An acknowledgement is accepted just where its number is that of the last request, or requests are
/// not numbered. Either way it is consumed, and what follows it is left.
#[verifier::rlimit(40)]
pub proof fn law_ack_matches_request(
    s: SocketView,
    received: Option<(isize, Seq<u8>)>,
    ack: NlmsghdrView<Rtm, NlmsgerrView<Rtm>>,
    rest: Seq<u8>,
)
    requires
        msg_kept::<Rtm, Nlmsgerr<Rtm>>(ack),
        is_ack(ack),
        s.seq != Some(u32::MAX),
        s.pid is None || s.pid == Some(ack.nl_pid),
        has_pending(s, received),
        pending(s, received) == msg_wire::<Rtm, Nlmsgerr<Rtm>>(ack, s.order) + rest,
    ensures
        received_ack(sent(s), received) == (
            SocketView {
                pid: Some(ack.nl_pid),
                buffer: if rest.len() == 0 {
                    None
                } else {
                    Some(StreamView { unread: rest, marked: pending(s, received) })
                },
                ..sent(s)
            },
            if s.seq is None || ack.nl_seq == s.seq->0 + 1 {
                Ok::<(), NlErrorView>(())
            } else {
                Err::<(), NlErrorView>(NlErrorView::BadSeq)
            },
        ),
{
    let full = match s.buffer {
        Some(_) => sent(s),
        None => {
            let (ret, mem) = received->0;
            filled(sent(s), ret, mem)->Ok_0
        },
    };
    lemma_first_taken::<Rtm, Nlmsgerr<Rtm>>(full, ack, rest);
}

/// A message that is no acknowledgement, and behind which more is buffered, stays to be received:
/// whatever it is then read as, it is read from the same bytes.
pub proof fn law_no_ack_stays<T: NlType, P: Nl>(s: SocketView, received: Option<(isize, Seq<u8>)>)
    requires
        has_pending(s, received),
        read_msg::<Rtm, Nlmsgerr<Rtm>>(s.order, pending(s, received)) matches Ok((msg, n)) && !is_ack(msg) && n
            < pending(s, received).len() && (s.pid is None || s.pid == Some(msg.nl_pid)),
    ensures
        ({
            let (after, r) = received_ack(s, received);
            &&& r == Err::<(), NlErrorView>(NlErrorView::NoAck)
            &&& after.buffer is Some
            &&& pending(after, None) == pending(s, received)
            &&& received_nl::<T, P>(after, None).1 == received_nl::<T, P>(
                SocketView { pid: after.pid, ..s },
                received,
            ).1
        }),
{
}

/// Requests are numbered one after the other: each carries the number that the socket then keeps,
/// and the next one carries the next.
pub proof fn law_requests_numbered<T, V>(s: SocketView, first: NlmsghdrView<T, V>, second: NlmsghdrView<T, V>)
    requires
        s.seq is Some,
        s.seq->0 + 1 < u32::MAX,
    ensures
        stamped(s, first).nl_seq == s.seq->0 + 1,
        sent(s).seq == Some(stamped(s, first).nl_seq),
        stamped(sent(s), second).nl_seq == stamped(s, first).nl_seq + 1,
{
}

/// Sending changes neither the payload nor the size of a message.
pub proof fn law_stamp_keeps<T: NlType, P: Nl>(s: SocketView, m: NlmsghdrView<T, P::V>)
    requires
        msg_kept::<T, P>(m),
    ensures
        msg_kept::<T, P>(stamped(s, m)),
        stamped(s, m).nl_payload == m.nl_payload,
        msg_size::<T, P>(stamped(s, m)) == msg_size::<T, P>(m),
{
}

/// A message that was sent is the message that a receiver reads, with the ID and the number that the
/// sender gave it.
pub proof fn law_sent_is_received<T: NlType, P: Nl>(from: SocketView, to: SocketView, m: NlmsghdrView<T, P::V>)
    requires
        msg_kept::<T, P>(m),
        from.order == to.order,
        to.buffer is None,
        to.pid is None || to.pid == Some(stamped(from, m).nl_pid),
        msg_wire::<T, P>(stamped(from, m), from.order).len() <= isize::MAX,
    ensures
        ({
            let bytes = msg_wire::<T, P>(stamped(from, m), from.order);
            received_nl::<T, P>(to, Some((bytes.len() as isize, bytes))) == (
                SocketView { pid: Some(stamped(from, m).nl_pid), ..to },
                Ok::<NlmsghdrView<T, P::V>, NlErrorView>(stamped(from, m)),
            )
        }),
{
    let msg = stamped(from, m);
    let bytes = msg_wire::<T, P>(msg, from.order);
    lemma_msg_wire_len::<T, P>(msg, from.order);
    assert(bytes.take(bytes.len() as int) =~= bytes);
    assert(bytes + Seq::<u8>::empty() =~= bytes);
    let full = filled(to, bytes.len() as isize, bytes)->Ok_0;
    lemma_first_taken::<T, P>(full, msg, Seq::empty());
}

/// A descriptor that was made not to block does not, one that was made to block does, and neither
/// changes any other flag.
pub proof fn law_blocking(flags: i32, m: i32)
    requires
        is_nonblock_flag(m),
    ensures
        !flags_block(nonblocking_flags(flags, m), m),
        flags_block(blocking_flags(flags, m), m),
        nonblocking_flags(flags, m) & !m == flags & !m,
        blocking_flags(flags, m) & !m == flags & !m,
{
    assert((flags | m) & m == m) by (bit_vector);
    assert((flags & !m) & m == 0) by (bit_vector);
    assert((flags | m) & !m == flags & !m) by (bit_vector);
    assert((flags & !m) & !m == flags & !m) by (bit_vector);
}

/// The descriptor of a socket of an event loop does not block: it was found not to, or flags were
/// written with which it does not.
pub proof fn law_event_loop_does_not_block(fd: i32, asked: isize, flags: isize, m: i32)
    requires
        is_nonblock_flag(m),
    ensures
        new_next(fd, NewState::Ask, asked, m) == Next::<NewState>::Done(true) ==> !flags_block(asked as i32, m),
        new_next(fd, NewState::Flags(FlagsState::ReadToNonblock), flags, m) matches Next::Call(
            NewState::Flags(FlagsState::Write),
            SysCall::Fcntl { fd: on, cmd, arg },
        ) && on == fd && cmd == 4 && !flags_block(arg, m),
{
    law_blocking(flags as i32, m);
}

/// A socket that is bound to an ID without groups keeps that ID. One that joins groups forgets it,
/// so that the first message received sets it. One that asks for its address has the ID of that
/// address.
pub proof fn law_bound(s: SocketView, groups: Vec<u32>, bound: SysReply, joined: SysReply, named: SysReply)
    requires
        bound.ret >= 0,
        joined.ret == 0,
        named.ret == 0,
        named.addr_len == 12,
    ensures
        bind_next(s, BindState::Bind(None), bound) == (s, Next::<BindState>::Done(true)),
        bind_next(s, BindState::Bind(Some(groups)), bound) == (
            s,
            Next::Call(BindState::Join, join_call(s.fd, crate::groups::group_mask(groups@))),
        ),
        bind_next(s, BindState::Join, joined) == (
            SocketView { pid: None, ..s },
            Next::<BindState>::Done(true),
        ),
        bind_next(s, BindState::Bind2, bound) == (
            s,
            Next::Call(BindState::Name, SysCall::Getsockname { fd: s.fd, addr_len: 12 }),
        ),
        bind_next(s, BindState::Name, named) == (
            SocketView { pid: Some(named.addr.nl_pid), ..s },
            Next::<BindState>::Done(true),
        ),
{
}

/// The flags of a request that asks for an acknowledgement are read back as they are.
proof fn lemma_request_flags()
    ensures
        flags_of(flag_bits(seq![NlmF::Request, NlmF::Ack])) == seq![NlmF::Request, NlmF::Ack],
{
    let flags = seq![NlmF::Request, NlmF::Ack];
    reveal_with_fuel(flag_bits, 3);
    assert(flags.drop_last() =~= seq![NlmF::Request]);
    assert(flags.drop_last().drop_last() =~= Seq::<NlmF>::empty());
    assert((0u16 | 1u16) | 4u16 == 5u16) by (bit_vector);
    assert(flag_bits(flags) == 5);
    lemma_flags_of_five();
}

proof fn lemma_flags_of_five()
    ensures
        flags_of(5) == seq![NlmF::Request, NlmF::Ack],
{
    assert(1u16 << 0u16 == 1 && 5u16 & 1u16 == 1) by (bit_vector);
    assert(5u16 & (1u16 << 1u16) != (1u16 << 1u16)) by (bit_vector);
    assert(1u16 << 2u16 == 4 && 5u16 & 4u16 == 4) by (bit_vector);
    assert(forall|k: u16| 3 <= k < 16 ==> 5u16 & (#[trigger] (1u16 << k)) != (1u16 << k)) by (bit_vector);
    reveal_with_fuel(flags_below, 4);
    assert(flags_below(5, 3) =~= seq![NlmF::Request, NlmF::Ack]);
    lemma_no_more_flags(16);
}

proof fn lemma_no_more_flags(n: nat)
    requires
        3 <= n <= 16,
        forall|k: u16| 3 <= k < 16 ==> 5u16 & (#[trigger] (1u16 << k)) != (1u16 << k),
    ensures
        flags_below(5, n) == flags_below(5, 3),
    decreases n,
{
    if n > 3 {
        lemma_no_more_flags((n - 1) as nat);
        let k = (n - 1) as u16;
        assert(5u16 & (1u16 << k) != (1u16 << k));
    }
}

/// The request for a family is read back as it is: the controller that reads it reads the name that
/// was asked for.
pub proof fn law_family_request_kept(s: SocketView, name: Seq<char>)
    requires
        !name_too_long(name),
    ensures
        msg_kept::<GenlId, Genlmsghdr<CtrlCmd, CtrlAttr>>(stamped(s, family_request(name))),
        find_attr(
            stamped(s, family_request(name)).nl_payload->0.attrs,
            CtrlAttr::FamilyName.code(),
        ) == Some(text_wire(name)),
        String::read(s.order, text_wire(name)) == Ok::<Seq<char>, DeError>(name),
{
    let m = stamped(s, family_request(name));
    let payload = m.nl_payload->0;
    lemma_request_flags();
    assert(attr_kept(payload.attrs[0]));
    assert(payload.attrs.drop_first() =~= Seq::<NlattrView<CtrlAttr>>::empty());
    assert(crate::nlattr::attrs_len(payload.attrs) == crate::nlattr::attr_len(payload.attrs[0])) by {
        assert(crate::nlattr::attrs_len(payload.attrs.drop_first()) == 0);
    }
    String::law_round_trip(name, s.order);
}

/// The socket when a family has been asked for, and the answer: `send` has returned `ret`, then the
/// answer is received, then the acknowledgement. The first of these that fails ends it with its
/// failure. Where something is buffered, `first` or `second` does not count.
pub open spec fn family_asked<T: NlAttrType>(
    s: SocketView,
    ret: isize,
    first: (isize, Seq<u8>),
    second: (isize, Seq<u8>),
) -> (SocketView, Result<CtrlMsgView<T>, NlErrorView>) {
    if ret < 0 {
        (s, Err(NlErrorView::Io))
    } else {
        match received_nl::<GenlId, Genlmsghdr<CtrlCmd, T>>(s, Some(first)) {
            (after, Err(e)) => (after, Err(e)),
            (after, Ok(msg)) => match received_ack(after, Some(second)) {
                (end, Err(e)) => (end, Err(e)),
                (end, Ok(())) => (end, Ok(msg)),
            },
        }
    }
}

/// Whether asking for a family goes on from `next` to the given end, when it is handed `second` as the
/// reply to the `recv` of the acknowledgement.
pub open spec fn ends_with_ack<T: NlAttrType>(
    next: (SocketView, FamilyNext<T>),
    second: (isize, Seq<u8>),
    end: (SocketView, Result<CtrlMsgView<T>, NlErrorView>),
) -> bool {
    match next.1 {
        FamilyNext::Done(done) => end == (next.0, done),
        FamilyNext::Ack(answer) => forall|msg: CtrlMsg<T>|
            msg@ == answer ==> #[trigger] family_next(next.0, FamilyState::Ack(msg), second.0, second.1) == (
                end.0,
                FamilyNext::Done(end.1),
            ),
        _ => false,
    }
}

/// The steps of asking for a family, from the reply to `send` on, do what sending, receiving the
/// answer and receiving the acknowledgement do one after the other: the end is the answer just where
/// all three succeed, and else the failure of the first that does not.
pub proof fn law_family_asked<T: NlAttrType>(
    s: SocketView,
    ret: isize,
    mem: Seq<u8>,
    first: (isize, Seq<u8>),
    second: (isize, Seq<u8>),
)
    ensures
        ({
            let end = family_asked::<T>(s, ret, first, second);
            let next = family_next(s, FamilyState::<T>::Sent, ret, mem);
            if ret >= 0 && s.buffer is None {
                &&& next == (s, FamilyNext::<T>::Receive)
                &&& ends_with_ack(family_next(s, FamilyState::<T>::Receive, first.0, first.1), second, end)
            } else {
                ends_with_ack(next, second, end)
            }
        }),
{
}

/// Asking for a family ends with the answer of the controller, where the answer and the
/// acknowledgement come in one datagram.
#[verifier::rlimit(40)]
pub proof fn law_family_one_datagram<T: NlAttrType>(
    s: SocketView,
    answer: CtrlMsgView<T>,
    ack: NlmsghdrView<Rtm, NlmsgerrView<Rtm>>,
    ret: isize,
    mem: Seq<u8>,
)
    requires
        s.buffer is None,
        s.seq is None || s.seq == Some(ack.nl_seq),
        s.pid is None || s.pid == Some(answer.nl_pid),
        ack.nl_pid == answer.nl_pid,
        msg_kept::<GenlId, Genlmsghdr<CtrlCmd, T>>(answer),
        msg_kept::<Rtm, Nlmsgerr<Rtm>>(ack),
        is_ack(ack),
        0 < ret <= mem.len(),
        mem.take(ret as int) == msg_wire::<GenlId, Genlmsghdr<CtrlCmd, T>>(answer, s.order) + msg_wire::<
            Rtm,
            Nlmsgerr<Rtm>,
        >(ack, s.order),
    ensures
        family_next(s, FamilyState::<T>::Receive, ret, mem) == (
            SocketView { pid: Some(answer.nl_pid), ..s },
            FamilyNext::Done(Ok::<CtrlMsgView<T>, NlErrorView>(answer)),
        ),
{
    let rest = msg_wire::<Rtm, Nlmsgerr<Rtm>>(ack, s.order);
    let full = filled(s, ret, mem)->Ok_0;
    lemma_msg_wire_len::<Rtm, Nlmsgerr<Rtm>>(ack, s.order);
    lemma_first_taken::<GenlId, Genlmsghdr<CtrlCmd, T>>(full, answer, rest);
    let one = received_nl::<GenlId, Genlmsghdr<CtrlCmd, T>>(s, Some((ret, mem))).0;
    assert(rest + Seq::<u8>::empty() =~= rest);
    lemma_first_taken::<Rtm, Nlmsgerr<Rtm>>(one, ack, Seq::empty());
}

/// Asking for a family ends with the answer of the controller, where the answer and the
/// acknowledgement come in a datagram each.
#[verifier::rlimit(40)]
pub proof fn law_family_two_datagrams<T: NlAttrType>(
    s: SocketView,
    answer: CtrlMsg<T>,
    ack: NlmsghdrView<Rtm, NlmsgerrView<Rtm>>,
    first: Seq<u8>,
    second: Seq<u8>,
)
    requires
        s.buffer is None,
        s.seq is None || s.seq == Some(ack.nl_seq),
        s.pid is None || s.pid == Some(answer.nl_pid),
        ack.nl_pid == answer.nl_pid,
        msg_kept::<GenlId, Genlmsghdr<CtrlCmd, T>>(answer@),
        msg_kept::<Rtm, Nlmsgerr<Rtm>>(ack),
        is_ack(ack),
        first == msg_wire::<GenlId, Genlmsghdr<CtrlCmd, T>>(answer@, s.order),
        second == msg_wire::<Rtm, Nlmsgerr<Rtm>>(ack, s.order),
        first.len() <= isize::MAX,
        second.len() <= isize::MAX,
    ensures
        ({
            let (one, next) = family_next(s, FamilyState::<T>::Receive, first.len() as isize, first);
            &&& next == FamilyNext::Ack(answer@)
            &&& family_next(one, FamilyState::Ack(answer), second.len() as isize, second) == (
                SocketView { pid: Some(answer.nl_pid), ..s },
                FamilyNext::Done(Ok::<CtrlMsgView<T>, NlErrorView>(answer@)),
            )
        }),
{
    lemma_msg_wire_len::<GenlId, Genlmsghdr<CtrlCmd, T>>(answer@, s.order);
    lemma_msg_wire_len::<Rtm, Nlmsgerr<Rtm>>(ack, s.order);
    assert(first.take(first.len() as int) =~= first);
    assert(second.take(second.len() as int) =~= second);
    assert(first + Seq::<u8>::empty() =~= first);
    assert(second + Seq::<u8>::empty() =~= second);
    let full = filled(s, first.len() as isize, first)->Ok_0;
    lemma_first_taken::<GenlId, Genlmsghdr<CtrlCmd, T>>(full, answer@, Seq::empty());
    let one = family_next(s, FamilyState::<T>::Receive, first.len() as isize, first).0;
    let full = filled(one, second.len() as isize, second)->Ok_0;
    lemma_first_taken::<Rtm, Nlmsgerr<Rtm>>(full, ack, Seq::empty());
}

/// The first attribute of a type is found, whatever precedes it.
pub(crate) proof fn lemma_found<T: NlAttrType>(attrs: Seq<NlattrView<T>>, i: int, code: u16)
    requires
        0 <= i < attrs.len(),
        attrs[i].nla_type.code() == code,
        forall|k: int| 0 <= k < i ==> (#[trigger] attrs[k]).nla_type.code() != code,
    ensures
        find_attr(attrs, code) == Some(attrs[i].payload),
    decreases i,
{
    if i > 0 {
        let tail = attrs.drop_first();
        assert(attrs[0].nla_type.code() != code);
        assert forall|k: int| 0 <= k < i - 1 implies (#[trigger] tail[k]).nla_type.code() != code by {
            assert(tail[k] == attrs[k + 1]);
        }
        lemma_found(tail, i - 1, code);
    }
}

/// A family is resolved to the number that its answer carries in the first attribute for it.
pub proof fn law_family_resolved(order: ByteOrder, attrs: Seq<NlattrView<CtrlAttr>>, i: int, id: u16)
    requires
        0 <= i < attrs.len(),
        attrs[i].nla_type == CtrlAttr::FamilyId,
        attrs[i].payload == u16_bytes(order, id),
        forall|k: int| 0 <= k < i ==> (#[trigger] attrs[k]).nla_type.code() != CtrlAttr::FamilyId.code(),
    ensures
        family_id(order, attrs) == Ok::<u16, NlErrorView>(id),
{
    lemma_found(attrs, i, CtrlAttr::FamilyId.code());
    u16::law_round_trip(id, order);
}

/// The attributes that describe a group with the given name and number.
pub open spec fn group_attrs(order: ByteOrder, name: Seq<char>, id: u32) -> Seq<NlattrView<CtrlAttrMcastGrp>> {
    seq![
        NlattrView {
            nla_len: (4 + text_wire(name).len()) as u16,
            nla_type: CtrlAttrMcastGrp::Name,
            payload: text_wire(name),
        },
        NlattrView { nla_len: 8, nla_type: CtrlAttrMcastGrp::Id, payload: u32_bytes(order, id) },
    ]
}

/// Whether `item` describes the group of the given name and number, in either order.
pub open spec fn describes_group(
    order: ByteOrder,
    item: NlattrView<CtrlAttrMcastGrp>,
    group: (Seq<char>, u32),
) -> bool {
    &&& !name_too_long(group.0)
    &&& item.payload == attrs_wire(group_attrs(order, group.0, group.1), order) || item.payload == attrs_wire(
        group_attrs(order, group.0, group.1).reverse(),
        order,
    )
}

/// Whether `items` describe the groups of the given names and numbers, in their order.
pub open spec fn describe_groups(
    order: ByteOrder,
    items: Seq<NlattrView<CtrlAttrMcastGrp>>,
    groups: Seq<(Seq<char>, u32)>,
) -> bool {
    &&& items.len() == groups.len()
    &&& forall|i: int| 0 <= i < items.len() ==> #[trigger] describes_group(order, items[i], groups[i])
}

/// The number of the first group of the given name.
pub open spec fn group_named(groups: Seq<(Seq<char>, u32)>, name: Seq<char>) -> Option<u32>
    decreases groups.len(),
{
    if groups.len() == 0 {
        None
    } else if groups[0].0 == name {
        Some(groups[0].1)
    } else {
        group_named(groups.drop_first(), name)
    }
}

/// The attributes that describe a group are read back, and its name and number are found in them.
proof fn lemma_group_attrs(order: ByteOrder, name: Seq<char>, id: u32)
    requires
        !name_too_long(name),
    ensures
        attrs_kept(group_attrs(order, name, id)),
        find_attr(group_attrs(order, name, id), CtrlAttrMcastGrp::Name.code()) == Some(text_wire(name)),
        find_attr(group_attrs(order, name, id), CtrlAttrMcastGrp::Id.code()) == Some(u32_bytes(order, id)),
        attrs_kept(group_attrs(order, name, id).reverse()),
        find_attr(group_attrs(order, name, id).reverse(), CtrlAttrMcastGrp::Name.code()) == Some(text_wire(name)),
        find_attr(group_attrs(order, name, id).reverse(), CtrlAttrMcastGrp::Id.code()) == Some(
            u32_bytes(order, id),
        ),
{
    let attrs = group_attrs(order, name, id);
    let turned = attrs.reverse();
    assert(attr_kept(attrs[0]));
    assert(attr_kept(attrs[1])) by {
        law_u32_round_trip(order, id, Seq::empty());
    }
    lemma_found(attrs, 0, CtrlAttrMcastGrp::Name.code());
    lemma_found(attrs, 1, CtrlAttrMcastGrp::Id.code());
    assert(turned[0] == attrs[1] && turned[1] == attrs[0]);
    lemma_found(turned, 1, CtrlAttrMcastGrp::Name.code());
    lemma_found(turned, 0, CtrlAttrMcastGrp::Id.code());
}

/// A group whose attributes are read back is matched by its name and no other.
proof fn lemma_group_id_of(
    order: ByteOrder,
    item: NlattrView<CtrlAttrMcastGrp>,
    attrs: Seq<NlattrView<CtrlAttrMcastGrp>>,
    text: Seq<u8>,
    number: Seq<u8>,
    group: (Seq<char>, u32),
    name: Seq<char>,
)
    requires
        read_attrs::<CtrlAttrMcastGrp>(order, item.payload) == Ok::<Seq<NlattrView<CtrlAttrMcastGrp>>, DeError>(
            attrs,
        ),
        find_attr(attrs, CtrlAttrMcastGrp::Name.code()) == Some(text),
        find_attr(attrs, CtrlAttrMcastGrp::Id.code()) == Some(number),
        String::read(order, text) == Ok::<Seq<char>, DeError>(group.0),
        u32::read(order, number) == Ok::<u32, DeError>(group.1),
    ensures
        group_id(order, item, name) == (if group.0 == name {
            Some(group.1)
        } else {
            None
        }),
{
}

/// An attribute that describes a group is matched by the name of that group and no other.
proof fn lemma_group_id(
    order: ByteOrder,
    item: NlattrView<CtrlAttrMcastGrp>,
    group: (Seq<char>, u32),
    name: Seq<char>,
)
    requires
        describes_group(order, item, group),
    ensures
        group_id(order, item, name) == (if group.0 == name {
            Some(group.1)
        } else {
            None
        }),
{
    let named = group_attrs(order, group.0, group.1);
    lemma_group_attrs(order, group.0, group.1);
    let attrs = if item.payload == attrs_wire(named, order) {
        named
    } else {
        named.reverse()
    };
    law_attrs_round_trip(attrs, order);
    String::law_round_trip(group.0, order);
    u32::law_round_trip(group.1, order);
    lemma_group_id_of(order, item, attrs, text_wire(group.0), u32_bytes(order, group.1), group, name);
}

proof fn lemma_first_group(
    order: ByteOrder,
    items: Seq<NlattrView<CtrlAttrMcastGrp>>,
    groups: Seq<(Seq<char>, u32)>,
    name: Seq<char>,
)
    requires
        describe_groups(order, items, groups),
    ensures
        first_group(order, items, name) == group_named(groups, name),
    decreases items.len(),
{
    if items.len() > 0 {
        assert(describes_group(order, items[0], groups[0]));
        lemma_group_id(order, items[0], groups[0], name);
        let rest = items.drop_first();
        let others = groups.drop_first();
        assert forall|i: int| 0 <= i < rest.len() implies #[trigger] describes_group(order, rest[i], others[i]) by {
            assert(describes_group(order, items[i + 1], groups[i + 1]));
        }
        lemma_first_group(order, rest, others, name);
    }
}

/// A group is resolved to the number that the answer describes the first group of that name with,
/// whether each group has its name or its number first, and a name that no group has is not resolved.
pub proof fn law_group_resolved(
    order: ByteOrder,
    attrs: Seq<NlattrView<CtrlAttr>>,
    i: int,
    items: Seq<NlattrView<CtrlAttrMcastGrp>>,
    groups: Seq<(Seq<char>, u32)>,
    name: Seq<char>,
)
    requires
        0 <= i < attrs.len(),
        attrs[i].nla_type == CtrlAttr::McastGroups,
        forall|k: int| 0 <= k < i ==> (#[trigger] attrs[k]).nla_type.code() != CtrlAttr::McastGroups.code(),
        attrs[i].payload == attrs_wire(items, order),
        attrs_kept(items),
        describe_groups(order, items, groups),
    ensures
        mcast_group(order, attrs, name) == (match group_named(groups, name) {
            Some(id) => Ok::<u32, NlErrorView>(id),
            None => Err::<u32, NlErrorView>(no_group()),
        }),
{
    lemma_found(attrs, i, CtrlAttr::McastGroups.code());
    law_attrs_round_trip(items, order);
    lemma_first_group(order, items, groups, name);
}

/// The socket of an event loop when it has been polled `n` times without reading, and what was
/// handed out.
pub open spec fn polled_times<T: NlType, P: Nl>(s: AsyncView, n: nat) -> (AsyncView, Seq<PollView<T, P::V>>)
    decreases n,
{
    if n == 0 {
        (s, Seq::empty())
    } else {
        let (one, first) = polled::<T, P>(s, None);
        let (all, rest) = polled_times::<T, P>(one, (n - 1) as nat);
        (all, seq![first] + rest)
    }
}

/// The messages as what polling for them hands out.
pub open spec fn polled_out<T, V>(msgs: Seq<NlmsghdrView<T, V>>) -> Seq<PollView<T, V>> {
    Seq::new(msgs.len(), |i: int| PollView::<T, V>::Message(msgs[i]))
}

/// The first of the buffered messages is handed out, and the others stay buffered.
proof fn lemma_first_polled<T: NlType, P: Nl>(s: AsyncView, m: NlmsghdrView<T, P::V>, rest: Seq<u8>)
    requires
        msg_kept::<T, P>(m),
        s.buffer is Some,
        s.buffer->0.unread == msg_wire::<T, P>(m, s.order) + rest,
    ensures
        polled::<T, P>(s, None) == (
            AsyncView {
                buffer: Some(StreamView { unread: rest, marked: s.buffer->0.unread }),
                ..s
            },
            PollView::<T, P::V>::Message(m),
        ),
{
    lemma_msg_wire_len::<T, P>(m, s.order);
    law_msg_round_trip::<T, P>(m, s.order, rest);
}

/// Polling once more hands out one message more.
proof fn lemma_polled_more<T: NlType, P: Nl>(s: AsyncView, one: AsyncView, msgs: Seq<NlmsghdrView<T, P::V>>)
    requires
        msgs.len() > 0,
        polled::<T, P>(s, None) == (one, PollView::<T, P::V>::Message(msgs[0])),
        polled_times::<T, P>(one, (msgs.len() - 1) as nat).1 == polled_out(msgs.drop_first()),
    ensures
        polled_times::<T, P>(s, msgs.len()) == (
            polled_times::<T, P>(one, (msgs.len() - 1) as nat).0,
            polled_out(msgs),
        ),
{
    assert(seq![PollView::<T, P::V>::Message(msgs[0])] + polled_out(msgs.drop_first()) =~= polled_out(msgs));
}

/// Polling hands out messages that are buffered one behind the other one after the other, whoever
/// sent them, and then nothing is left.
#[verifier::rlimit(40)]
pub proof fn law_stream_polled<T: NlType, P: Nl>(s: AsyncView, msgs: Seq<NlmsghdrView<T, P::V>>)
    requires
        forall|i: int| 0 <= i < msgs.len() ==> msg_kept::<T, P>(#[trigger] msgs[i]),
        s.buffer is Some,
        s.buffer->0.unread == stream_wire::<T, P>(msgs, s.order),
    ensures
        polled_times::<T, P>(s, msgs.len()).1 == polled_out(msgs),
        nothing_left(polled_times::<T, P>(s, msgs.len()).0),
    decreases msgs.len(),
{
    if msgs.len() == 0 {
        assert(polled_out(msgs) =~= Seq::<PollView<T, P::V>>::empty());
    } else {
        let tail = msgs.drop_first();
        let rest = stream_wire::<T, P>(tail, s.order);
        lemma_first_polled::<T, P>(s, msgs[0], rest);
        let one = AsyncView {
            buffer: Some(StreamView { unread: rest, marked: s.buffer->0.unread }),
            ..s
        };
        assert forall|i: int| 0 <= i < tail.len() implies msg_kept::<T, P>(#[trigger] tail[i]) by {
            assert(tail[i] == msgs[i + 1]);
        }
        law_stream_polled::<T, P>(one, tail);
        lemma_polled_more::<T, P>(s, one, msgs);
    }
}

} // verus!
