//! What sending and receiving ask of the system and make of its replies.
//!
//! Each law speaks of whatever the operation returns: `call_ensures` says that a call of the
//! operation with those arguments may return that result.

use crate::buffer::{stream_marked, stream_unread, StreamView};
use crate::bytes::u32_bytes;
use crate::consts::{NlType, Rtm};
use crate::err::{NlError, NlErrorView, Nlmsgerr};
use crate::laws::format::law_message_layout;
use crate::nl::{msg_wire, read_msg, Nl, Nlmsghdr, NlmsghdrView, Wire};
use crate::socket::{filled, NlMessageIter, NlSocket, SocketView};
use crate::sys::{SysCall, SysReply};
use vstd::prelude::*;

verus! {

/// Whether the two sockets have the same bytes to hand out, now and after a rewind.
pub open spec fn same_buffer(a: NlSocket, b: NlSocket) -> bool {
    &&& a.buffer is Some <==> b.buffer is Some
    &&& a.buffer is Some ==> stream_unread(a.buffer->0) == stream_unread(b.buffer->0) && stream_marked(
        a.buffer->0,
    ) == stream_marked(b.buffer->0)
}

/// Whether the socket has just `bytes` left to hand out: where there are none its buffer is dropped.
pub open spec fn has_left(s: NlSocket, bytes: Seq<u8>) -> bool {
    &&& s.buffer is None <==> bytes.len() == 0
    &&& s.buffer is Some ==> stream_unread(s.buffer->0) == bytes
}

/// Whether the next message is to be read from `u`: what the socket has buffered, or where it has
/// nothing the bytes that `recv` says it wrote.
pub open spec fn reads_from(s: NlSocket, received: Option<SysReply>, u: Seq<u8>) -> bool {
    match s.buffer {
        Some(b) => u == stream_unread(b),
        None => received matches Some(reply) && reply.ret > 0 && u == (if reply.ret <= reply.mem@.len() {
            reply.mem@.take(reply.ret as int)
        } else {
            reply.mem@
        }),
    }
}

/// The bytes that a message is to be read from are what the buffer of the socket then starts with.
proof fn lemma_all_taken(s: NlSocket, received: Option<SysReply>, u: Seq<u8>)
    requires
        reads_from(s, received, u),
    ensures
        s.buffer is None ==> filled(s@, received->0.ret, received->0.mem@) == Ok::<SocketView, NlErrorView>(
            SocketView { buffer: Some(StreamView { unread: u, marked: u }), ..s@ },
        ),
{
    if s.buffer is None {
        let mem = received->0.mem@;
        assert(mem.take(mem.len() as int) =~= mem);
    }
}

/// Counting makes the number of the last request one higher, where requests are numbered, and nothing
/// else.
pub proof fn law_counted(s: &mut NlSocket)
    requires
        call_ensures(NlSocket::increment_seq, (s,), ()),
        old(s).seq != Some(u32::MAX),
    ensures
        old(s).seq is None ==> final(s).seq is None,
        old(s).seq matches Some(n) ==> (final(s).seq matches Some(next) && next == n + 1),
        final(s).fd == old(s).fd,
        final(s).order == old(s).order,
        final(s).pid == old(s).pid,
        same_buffer(*final(s), *old(s)),
{
}

/// Sending and receiving bytes ask for just those calls, and give the number of bytes that they
/// return, or fail where that is negative.
pub proof fn law_plain_calls(
    s: NlSocket,
    buf: Vec<u8>,
    len: usize,
    flags: i32,
    reply: SysReply,
    send: SysCall,
    recv: SysCall,
    sent: Result<isize, std::io::Error>,
    received: Result<isize, std::io::Error>,
    sent_nl: Result<(), NlError>,
)
    requires
        call_ensures(NlSocket::send, (&s, buf, flags), send),
        call_ensures(NlSocket::recv, (&s, len, flags), recv),
        call_ensures(NlSocket::send_reply, (&reply,), sent),
        call_ensures(NlSocket::recv_reply, (&reply,), received),
        call_ensures(NlSocket::send_nl_reply, (&reply,), sent_nl),
    ensures
        send == (SysCall::Send { fd: s.fd, buf, flags }),
        recv == (SysCall::Recv { fd: s.fd, len, flags }),
        reply.ret >= 0 ==> sent == Ok::<isize, std::io::Error>(reply.ret) && received == Ok::<
            isize,
            std::io::Error,
        >(reply.ret) && sent_nl is Ok,
        reply.ret < 0 ==> sent is Err && received is Err && (sent_nl matches Err(NlError::Io(_))),
{
}

/// A message is sent as it was given, but for the ID of the socket where it has one, whether or not
/// requests are numbered, and for the next number where they are, whether or not it has an ID. The
/// socket keeps that number and is otherwise as it was.
pub proof fn law_send_nl<T: NlType, P: Wire>(s: &mut NlSocket, msg: Nlmsghdr<T, P>, r: Result<SysCall, NlError>)
    requires
        call_ensures(NlSocket::send_nl::<T, P>, (s, msg), r),
        old(s).seq != Some(u32::MAX),
    ensures
        ({
            let pid = if old(s).pid is Some {
                old(s).pid->0
            } else {
                msg.nl_pid
            };
            let seq = if old(s).seq is Some {
                (old(s).seq->0 + 1) as u32
            } else {
                msg.nl_seq
            };
            let m = NlmsghdrView {
                nl_len: msg.nl_len,
                nl_type: msg.nl_type,
                nl_flags: msg.nl_flags@,
                nl_seq: seq,
                nl_pid: pid,
                nl_payload: if msg.nl_payload is Some {
                    Some(msg.nl_payload->0@)
                } else {
                    None
                },
            };
            &&& r matches Ok(SysCall::Send { fd, buf, flags }) && fd == old(s).fd && flags == 0 && buf@ == msg_wire::<
                T,
                P,
            >(m, old(s).order) && buf@.subrange(8, 12) == u32_bytes(old(s).order, seq) && buf@.subrange(12, 16)
                == u32_bytes(old(s).order, pid)
            &&& final(s).seq == (if old(s).seq is Some {
                Some(seq)
            } else {
                None
            })
        }),
        final(s).fd == old(s).fd,
        final(s).order == old(s).order,
        final(s).pid == old(s).pid,
        same_buffer(*final(s), *old(s)),
{
    let m = NlmsghdrView {
        nl_len: msg.nl_len,
        nl_type: msg.nl_type,
        nl_flags: msg.nl_flags@,
        nl_seq: if old(s).seq is Some {
            (old(s).seq->0 + 1) as u32
        } else {
            msg.nl_seq
        },
        nl_pid: if old(s).pid is Some {
            old(s).pid->0
        } else {
            msg.nl_pid
        },
        nl_payload: if msg.nl_payload is Some {
            Some(msg.nl_payload->0@)
        } else {
            None
        },
    };
    law_message_layout::<T, P>(m, old(s).order);
}

/// Receiving a message asks the system for bytes just where nothing is buffered: as many as are asked
/// for, or as the longest message has.
pub proof fn law_receive_asked<T: NlType, P: Nl>(
    s: NlSocket,
    buf_sz: Option<usize>,
    call: Option<SysCall>,
    it: NlMessageIter<'_, T, P>,
    next: Option<SysCall>,
)
    requires
        call_ensures(NlSocket::recv_nl_call, (&s, buf_sz), call),
        call_ensures(NlMessageIter::<T, P>::next_call, (&it,), next),
    ensures
        s.buffer is Some ==> call is None,
        s.buffer is None ==> call == Some(
            SysCall::Recv {
                fd: s.fd,
                len: if buf_sz is Some {
                    buf_sz->0
                } else {
                    32768
                },
                flags: 0,
            },
        ),
        it.socket().buffer is Some ==> next is None,
        it.socket().buffer is None ==> next == Some(
            SysCall::Recv { fd: it.socket().fd, len: 32768, flags: 0 },
        ),
{
}

/// Where nothing is buffered and nothing was received, there is no message and the socket is as it
/// was.
pub proof fn law_nothing_received<T: NlType, P: Nl>(
    s: &mut NlSocket,
    reply: SysReply,
    r: Result<Nlmsghdr<T, P>, NlError>,
)
    requires
        call_ensures(NlSocket::recv_nl::<T, P>, (s, Some(reply)), r),
        old(s).buffer is None,
        reply.ret <= 0,
    ensures
        final(s)@ == old(s)@,
        reply.ret < 0 ==> (r matches Err(NlError::Io(_))),
        reply.ret == 0 ==> (r matches Err(NlError::Msg(text)) && text@ == "No data could be read from the socket"@),
{
}

/// Otherwise the message is the one at the start of the bytes. A message of the sender, or the first
/// one, is handed out, and what is behind it is left. A message of another sender is refused and
/// passed over. Where there is no message all of the bytes stay. Nothing but the buffer, and the ID
/// at the first message, changes.
pub proof fn law_received<T: NlType, P: Nl>(
    s: &mut NlSocket,
    received: Option<SysReply>,
    u: Seq<u8>,
    r: Result<Nlmsghdr<T, P>, NlError>,
)
    requires
        call_ensures(NlSocket::recv_nl::<T, P>, (s, received), r),
        reads_from(*old(s), received, u),
    ensures
        final(s).fd == old(s).fd,
        final(s).order == old(s).order,
        final(s).seq == old(s).seq,
        match read_msg::<T, P>(old(s).order, u) {
            Err(e) => {
                &&& r matches Err(NlError::De(x)) && x == e
                &&& final(s).pid == old(s).pid
                &&& final(s).buffer matches Some(b) && stream_unread(b) == u
            },
            Ok((m, n)) => if old(s).pid is Some && old(s).pid->0 != m.nl_pid {
                &&& r matches Err(NlError::BadPid)
                &&& final(s).pid == old(s).pid
                &&& final(s).buffer matches Some(b) && stream_unread(b) == u.skip(n as int)
            } else {
                &&& r matches Ok(msg) && msg@ == m
                &&& final(s).pid == Some(m.nl_pid)
                &&& has_left(*final(s), u.skip(n as int))
                &&& final(s).buffer matches Some(b) ==> stream_marked(b) == u
            },
        },
{
    lemma_all_taken(*old(s), received, u);
}

/// The messages of a socket are handed out as receiving on it hands them out, and there is always a
/// next one or a failure.
pub proof fn law_next_is_received<T: NlType, P: Nl>(
    it: &mut NlMessageIter<'_, T, P>,
    received: Option<SysReply>,
    next: Option<Result<Nlmsghdr<T, P>, NlError>>,
    s: &mut NlSocket,
    r: Result<Nlmsghdr<T, P>, NlError>,
)
    requires
        call_ensures(NlMessageIter::<T, P>::next, (it, received), next),
        call_ensures(NlSocket::recv_nl::<T, P>, (s, received), r),
        old(it).socket() == old(s)@,
    ensures
        final(it).socket() == final(s)@,
        next matches Some(item) && (match r {
            Ok(msg) => item matches Ok(x) && x@ == msg@,
            Err(e) => item matches Err(x) && x@ == e@,
        }),
{
}

/// Dropping the buffer drops what was received and nothing else.
pub proof fn law_reset(s: &mut NlSocket)
    requires
        call_ensures(NlSocket::reset_buffer, (s,), ()),
    ensures
        final(s).buffer is None,
        final(s).fd == old(s).fd,
        final(s).order == old(s).order,
        final(s).pid == old(s).pid,
        final(s).seq == old(s).seq,
{
}

/// Where nothing is buffered and nothing was received, there is no acknowledgement and the socket is
/// as it was.
pub proof fn law_no_ack_received(s: &mut NlSocket, reply: SysReply, r: Result<(), NlError>)
    requires
        call_ensures(NlSocket::recv_ack, (s, Some(reply)), r),
        old(s).buffer is None,
        reply.ret <= 0,
    ensures
        r matches Err(NlError::NoAck),
        final(s)@ == old(s)@,
{
}

/// An acknowledgement is received just where the message at the start of the bytes is of the sender
/// or the first one, is an error message with the code zero, and has the number of the last request
/// if requests are numbered. Only for its number is such a message refused otherwise. Anything else,
/// whether or not something follows it, is no acknowledgement.
pub proof fn law_ack_received(s: &mut NlSocket, received: Option<SysReply>, u: Seq<u8>, r: Result<(), NlError>)
    requires
        call_ensures(NlSocket::recv_ack, (s, received), r),
        reads_from(*old(s), received, u),
    ensures
        ({
            let read = read_msg::<Rtm, Nlmsgerr<Rtm>>(old(s).order, u);
            let acknowledges = read matches Ok((m, _)) && (old(s).pid is None || old(s).pid->0 == m.nl_pid)
                && m.nl_type == Rtm::Error && (m.nl_payload matches Some(p) && p.error == 0);
            let numbered = old(s).seq is None || (read matches Ok((m, _)) && old(s).seq->0 == m.nl_seq);
            &&& r is Ok <==> acknowledges && numbered
            &&& acknowledges && !numbered ==> (r matches Err(NlError::BadSeq))
            &&& !acknowledges ==> (r matches Err(NlError::NoAck))
        }),
{
    lemma_all_taken(*old(s), received, u);
}

/// Asking for an acknowledgement leaves the descriptor and the number. An error message with the code
/// zero is consumed. Another message stays where something follows it, and is dropped where nothing
/// does. A message of another sender is passed over, and bytes that are no message stay.
pub proof fn law_ack_leaves(s: &mut NlSocket, received: Option<SysReply>, u: Seq<u8>, r: Result<(), NlError>)
    requires
        call_ensures(NlSocket::recv_ack, (s, received), r),
        reads_from(*old(s), received, u),
    ensures
        final(s).fd == old(s).fd,
        final(s).order == old(s).order,
        final(s).seq == old(s).seq,
        match read_msg::<Rtm, Nlmsgerr<Rtm>>(old(s).order, u) {
            Err(_) => final(s).pid == old(s).pid && (final(s).buffer matches Some(b) && stream_unread(b) == u),
            Ok((m, n)) => if old(s).pid is Some && old(s).pid->0 != m.nl_pid {
                final(s).pid == old(s).pid && (final(s).buffer matches Some(b) && stream_unread(b) == u.skip(
                    n as int,
                ))
            } else {
                &&& final(s).pid == Some(m.nl_pid)
                &&& if m.nl_type == Rtm::Error && (m.nl_payload matches Some(p) && p.error == 0) {
                    has_left(*final(s), u.skip(n as int))
                } else if n < u.len() {
                    final(s).buffer matches Some(b) && stream_unread(b) == u
                } else {
                    final(s).buffer is None
                }
            },
        },
{
    lemma_all_taken(*old(s), received, u);
}

} // verus!
