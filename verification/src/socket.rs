//! The netlink socket: the state that a socket keeps between calls, and what each operation makes of
//! it.

use crate::buffer::{
    min, stream_at_end, stream_contents, stream_new, stream_rewind, stream_view,
    StreamView,
};
use crate::bytes::{align4, ByteOrder};
use crate::consts::{NlType, Rtm, MAX_NL_LENGTH};
use crate::err::{DeError, NlError, NlErrorView, Nlmsgerr, NlmsgerrView};
use crate::nl::{
    msg_size, msg_wire, read_msg, stream_after, Nl, Nlmsghdr, NlmsghdrView, Wire,
};
use crate::payload::to_vec;
use crate::sys::{SysCall, SysReply};
use buffering::copy::{StreamReadBuffer, StreamWriteBuffer};
use core::marker::PhantomData;
use vstd::prelude::*;

verus! {

/// The state of a netlink socket.
pub struct NlSocket {
    /// The file descriptor.
    pub fd: i32,
    /// The byte order of the messages.
    pub order: ByteOrder,
    /// What was received and has not been handed out yet.
    pub buffer: Option<StreamReadBuffer<Vec<u8>>>,
    /// The netlink ID that messages are sent and expected with.
    pub pid: Option<u32>,
    /// The number of the last request, where requests are numbered.
    pub seq: Option<u32>,
}

/// What a socket stands for.
#[verifier::ext_equal]
pub struct SocketView {
    pub fd: i32,
    pub order: ByteOrder,
    pub buffer: Option<StreamView>,
    pub pid: Option<u32>,
    pub seq: Option<u32>,
}

/// What a buffer stands for.
pub open spec fn buffer_view(buffer: Option<StreamReadBuffer<Vec<u8>>>) -> Option<StreamView> {
    match buffer {
        Some(b) => Some(stream_view(b)),
        None => None,
    }
}

impl View for NlSocket {
    type V = SocketView;

    open spec fn view(&self) -> SocketView {
        SocketView {
            fd: self.fd,
            order: self.order,
            buffer: buffer_view(self.buffer),
            pid: self.pid,
            seq: self.seq,
        }
    }
}

/// What a result stands for.
pub open spec fn result_view<A: View, B: View>(r: Result<A, B>) -> Result<A::V, B::V> {
    match r {
        Ok(a) => Ok(a@),
        Err(b) => Err(b@),
    }
}

/// The text of the failure when nothing could be received.
pub open spec fn no_data() -> NlErrorView {
    NlErrorView::Msg("No data could be read from the socket"@)
}

/// The socket when `recv` has returned `ret` and left `mem`: the bytes received are what there is to
/// hand out.
pub open spec fn filled(s: SocketView, ret: isize, mem: Seq<u8>) -> Result<SocketView, NlErrorView> {
    if ret < 0 {
        Err(NlErrorView::Io)
    } else if ret == 0 {
        Err(no_data())
    } else {
        Ok(
            SocketView {
                buffer: Some(StreamView::fresh(mem.take(min(ret as nat, mem.len()) as int))),
                ..s
            },
        )
    }
}

/// The socket when the next message of its buffer has been taken, and that message. The first
/// message fixes the sender, and a message of another one is refused. A buffer of which nothing is
/// left is dropped, except behind a message that is refused.
pub open spec fn taken<T: NlType, P: Nl>(s: SocketView) -> (SocketView, Result<NlmsghdrView<T, P::V>, NlErrorView>) {
    let before = s.buffer->0;
    let after = stream_after::<T, P>(s.order, before);
    match read_msg::<T, P>(s.order, before.unread) {
        Err(e) => (SocketView { buffer: Some(after), ..s }, Err(NlErrorView::De(e))),
        Ok((msg, _)) => if s.pid is Some && s.pid != Some(msg.nl_pid) {
            (SocketView { buffer: Some(after), ..s }, Err(NlErrorView::BadPid))
        } else {
            (
                SocketView {
                    pid: Some(msg.nl_pid),
                    buffer: if after.unread.len() == 0 {
                        None
                    } else {
                        Some(after)
                    },
                    ..s
                },
                Ok(msg),
            )
        },
    }
}

/// What `recv` returned and the buffer that it left, where it was called.
pub open spec fn reply_view(received: Option<SysReply>) -> Option<(isize, Seq<u8>)> {
    match received {
        Some(reply) => Some((reply.ret, reply.mem@)),
        None => None,
    }
}

/// The socket when a message has been received, and that message. The reply of `recv` counts just
/// where the socket had nothing buffered.
pub open spec fn received_nl<T: NlType, P: Nl>(s: SocketView, received: Option<(isize, Seq<u8>)>) -> (
    SocketView,
    Result<NlmsghdrView<T, P::V>, NlErrorView>,
) {
    if s.buffer is None {
        let (ret, mem) = received->0;
        match filled(s, ret, mem) {
            Ok(full) => taken::<T, P>(full),
            Err(e) => (s, Err(e)),
        }
    } else {
        taken::<T, P>(s)
    }
}

/// Whether a message acknowledges a request: it is an error message whose code is zero.
pub open spec fn is_ack(msg: NlmsghdrView<Rtm, NlmsgerrView<Rtm>>) -> bool {
    &&& msg.nl_type == Rtm::Error
    &&& msg.nl_payload matches Some(payload) && payload.error == 0
}

/// The socket when what was last read from its buffer is put back. With no buffer left nothing is.
pub open spec fn put_back(s: SocketView) -> SocketView {
    SocketView {
        buffer: match s.buffer {
            Some(b) => Some(StreamView { unread: b.marked, marked: b.marked }),
            None => None,
        },
        ..s
    }
}

/// The socket when an acknowledgement has been asked for, and whether there was one.
pub open spec fn received_ack(s: SocketView, received: Option<(isize, Seq<u8>)>) -> (
    SocketView,
    Result<(), NlErrorView>,
) {
    let (after, r) = received_nl::<Rtm, Nlmsgerr<Rtm>>(s, received);
    match r {
        Ok(msg) => if !is_ack(msg) {
            (put_back(after), Err(NlErrorView::NoAck))
        } else if after.seq is Some && after.seq != Some(msg.nl_seq) {
            (after, Err(NlErrorView::BadSeq))
        } else {
            (after, Ok(()))
        },
        Err(_) => (after, Err(NlErrorView::NoAck)),
    }
}

/// The socket when a request has been sent: its number, where requests are numbered, is one higher.
pub open spec fn sent(s: SocketView) -> SocketView {
    SocketView {
        seq: match s.seq {
            Some(seq) => Some((seq + 1) as u32),
            None => None,
        },
        ..s
    }
}

/// The message that is sent for `m`: with the netlink ID of the socket, where it has one, and with
/// the next number, where requests are numbered.
pub open spec fn stamped<T, V>(s: SocketView, m: NlmsghdrView<T, V>) -> NlmsghdrView<T, V> {
    NlmsghdrView {
        nl_pid: match s.pid {
            Some(pid) => pid,
            None => m.nl_pid,
        },
        nl_seq: match sent(s).seq {
            Some(seq) => seq,
            None => m.nl_seq,
        },
        ..m
    }
}

/// Whether the call sends these bytes on the socket, with these flags.
pub open spec fn sends(call: SysCall, fd: i32, bytes: Seq<u8>, flags: i32) -> bool {
    call matches SysCall::Send { fd: on, buf, flags: with } && on == fd && buf@ == bytes && with == flags
}

impl NlSocket {
    /// Makes the number of the last request one higher, where requests are numbered.
    pub fn increment_seq(&mut self)
        requires
            old(self)@.seq != Some(u32::MAX),
        ensures
            final(self)@ == sent(old(self)@),
    {
        match self.seq {
            Some(seq) => {
                self.seq = Some(seq + 1);
            },
            None => {},
        }
    }

    /// The call that sends bytes; [`NlSocket::send_reply`] reads the answer.
    pub fn send(&self, buf: Vec<u8>, flags: i32) -> (call: SysCall)
        ensures
            call == (SysCall::Send { fd: self@.fd, buf, flags }),
    {
        SysCall::Send { fd: self.fd, buf, flags }
    }

    /// The number of bytes that were sent, where any were.
    pub fn send_reply(reply: &SysReply) -> (r: Result<isize, std::io::Error>)
        ensures
            r is Ok <==> reply.ret >= 0,
            r matches Ok(n) ==> n == reply.ret,
    {
        if reply.ret >= 0 {
            Ok(reply.ret)
        } else {
            Err(std::io::Error::last_os_error())
        }
    }

    /// The call that receives up to `len` bytes; [`NlSocket::recv_reply`] reads the answer.
    pub fn recv(&self, len: usize, flags: i32) -> (call: SysCall)
        ensures
            call == (SysCall::Recv { fd: self@.fd, len, flags }),
    {
        SysCall::Recv { fd: self.fd, len, flags }
    }

    /// The number of bytes that were received, where any were.
    pub fn recv_reply(reply: &SysReply) -> (r: Result<isize, std::io::Error>)
        ensures
            r is Ok <==> reply.ret >= 0,
            r matches Ok(n) ==> n == reply.ret,
    {
        if reply.ret >= 0 {
            Ok(reply.ret)
        } else {
            Err(std::io::Error::last_os_error())
        }
    }

    /// The call that sends a message; [`NlSocket::send_nl_reply`] reads the answer.
    pub fn send_nl<T: NlType, P: Wire>(&mut self, msg: Nlmsghdr<T, P>) -> (r: Result<SysCall, NlError>)
        requires
            old(self)@.seq != Some(u32::MAX),
            align4(msg_size::<T, P>(msg@)) <= isize::MAX,
        ensures
            final(self)@ == sent(old(self)@),
            r matches Ok(call) && sends(
                call,
                old(self)@.fd,
                msg_wire::<T, P>(stamped(old(self)@, msg@), old(self)@.order),
                0,
            ),
    {
        let mut msg: Nlmsghdr<T, P> = msg;
        let mut mem: StreamWriteBuffer<'static> = StreamWriteBuffer::new_growable(Some(msg.asize()));
        match self.pid {
            Some(pid) => {
                msg.nl_pid = pid;
            },
            None => {},
        }
        self.increment_seq();
        match self.seq {
            Some(seq) => {
                msg.nl_seq = seq;
            },
            None => {},
        }
        match msg.serialize(self.order, &mut mem) {
            Ok(()) => {},
            Err(e) => {
                return Err(NlError::Ser(e));
            },
        }
        let buf: Vec<u8> = to_vec(stream_contents(&mem));
        assert(buf@ =~= msg_wire::<T, P>(msg@, self.order));
        Ok(self.send(buf, 0))
    }

    /// Whether a message was sent.
    pub fn send_nl_reply(reply: &SysReply) -> (r: Result<(), NlError>)
        ensures
            result_view(r) == (if reply.ret >= 0 {
                Ok::<(), NlErrorView>(())
            } else {
                Err::<(), NlErrorView>(NlErrorView::Io)
            }),
    {
        match Self::send_reply(reply) {
            Ok(_) => Ok(()),
            Err(e) => Err(NlError::Io(e)),
        }
    }

    /// The call that [`NlSocket::recv_nl`] needs the reply of: a `recv` into a buffer of `buf_sz`
    /// bytes, or of the longest message, unless something is buffered.
    pub fn recv_nl_call(&self, buf_sz: Option<usize>) -> (call: Option<SysCall>)
        ensures
            call == (if self@.buffer is None {
                Some(
                    SysCall::Recv {
                        fd: self@.fd,
                        len: match buf_sz {
                            Some(sz) => sz,
                            None => MAX_NL_LENGTH,
                        },
                        flags: 0,
                    },
                )
            } else {
                None
            }),
    {
        if self.buffer.is_none() {
            Some(self.recv(buf_sz.unwrap_or(MAX_NL_LENGTH), 0))
        } else {
            None
        }
    }

    /// Takes the bytes that `recv` left, where the socket has nothing buffered.
    fn fill(&mut self, reply: SysReply) -> (r: Result<(), NlError>)
        requires
            old(self)@.buffer is None,
        ensures
            match filled(old(self)@, reply.ret, reply.mem@) {
                Ok(full) => r is Ok && final(self)@ == full,
                Err(e) => r matches Err(x) && x@ == e && final(self)@ == old(self)@,
            },
    {
        let got: isize = match Self::recv_reply(&reply) {
            Ok(got) => got,
            Err(e) => {
                return Err(NlError::Io(e));
            },
        };
        if got == 0 {
            return Err(NlError::new("No data could be read from the socket"));
        }
        let mut mem: Vec<u8> = reply.mem;
        mem.truncate(got as usize);
        assert(mem@ =~= reply.mem@.take(min(reply.ret as nat, reply.mem@.len()) as int));
        self.buffer = Some(stream_new(mem));
        Ok(())
    }

    /// Receives the next message: from the buffer, or where there is none from the reply to the call
    /// that [`NlSocket::recv_nl_call`] asks for.
    pub fn recv_nl<T: NlType, P: Nl>(&mut self, received: Option<SysReply>) -> (r: Result<Nlmsghdr<T, P>, NlError>)
        requires
            old(self)@.buffer is None ==> received is Some,
        ensures
            (final(self)@, result_view(r)) == received_nl::<T, P>(old(self)@, reply_view(received)),
    {
        if self.buffer.is_none() {
            match received {
                Some(reply) => {
                    match self.fill(reply) {
                        Ok(()) => {},
                        Err(e) => {
                            return Err(e);
                        },
                    }
                },
                None => {},
            }
        }
        let ghost full = self@;
        let order: ByteOrder = self.order;
        let read: Result<Nlmsghdr<T, P>, DeError> = match &mut self.buffer {
            Some(b) => Nlmsghdr::deserialize(order, b),
            None => Err(DeError::UnexpectedEOB),
        };
        let msg: Nlmsghdr<T, P> = match read {
            Ok(msg) => msg,
            Err(e) => {
                return Err(NlError::De(e));
            },
        };
        match self.pid {
            None => {
                self.pid = Some(msg.nl_pid);
            },
            Some(pid) => {
                if pid != msg.nl_pid {
                    return Err(NlError::BadPid);
                }
            },
        }
        let at_end: bool = match &self.buffer {
            Some(b) => stream_at_end(b),
            None => false,
        };
        if at_end {
            self.buffer = None;
        }
        assert((self@, Ok::<NlmsghdrView<T, P::V>, NlErrorView>(msg@)) == taken::<T, P>(full));
        Ok(msg)
    }

    /// Drops what was received and has not been handed out.
    pub fn reset_buffer(&mut self)
        ensures
            final(self)@ == (SocketView { buffer: None, ..old(self)@ }),
    {
        self.buffer = None;
    }

    /// Receives an acknowledgement, and fails where the next message is none. A message that is none
    /// stays to be received, unless it was the last of the buffer.
    pub fn recv_ack(&mut self, received: Option<SysReply>) -> (r: Result<(), NlError>)
        requires
            old(self)@.buffer is None ==> received is Some,
        ensures
            (final(self)@, result_view(r)) == received_ack(old(self)@, reply_view(received)),
    {
        let msg: Nlmsghdr<Rtm, Nlmsgerr<Rtm>> = match self.recv_nl::<Rtm, Nlmsgerr<Rtm>>(received) {
            Ok(msg) => msg,
            Err(_) => {
                return Err(NlError::NoAck);
            },
        };
        let code: Option<i32> = match &msg.nl_payload {
            Some(payload) => Some(payload.error),
            None => None,
        };
        if msg.nl_type == Rtm::Error && code == Some(0) {
            match self.seq {
                Some(seq) => {
                    if seq != msg.nl_seq {
                        return Err(NlError::BadSeq);
                    }
                },
                None => {},
            }
            Ok(())
        } else {
            match &mut self.buffer {
                Some(b) => stream_rewind(b),
                None => {},
            }
            Err(NlError::NoAck)
        }
    }

    /// The messages that are received on the socket, one after the other.
    pub fn iter<'a, T: NlType, P: Nl>(&'a mut self) -> (it: NlMessageIter<'a, T, P>)
        ensures
            *it.socket_ref == *old(self),
            *final(it.socket_ref) == *final(self),
    {
        NlMessageIter::new(self)
    }
}

/// The messages that are received on a socket, one after the other.
pub struct NlMessageIter<'a, T, P> {
    /// The socket.
    pub socket_ref: &'a mut NlSocket,
    /// The type of the messages.
    pub data_type: PhantomData<T>,
    /// The payload of the messages.
    pub data_payload: PhantomData<P>,
}

impl<'a, T: NlType, P: Nl> NlMessageIter<'a, T, P> {
    /// What the socket stands for.
    pub open spec fn socket(&self) -> SocketView {
        self.socket_ref@
    }

    /// The messages that are received on the given socket.
    pub fn new(socket_ref: &'a mut NlSocket) -> (it: Self)
        ensures
            *it.socket_ref == *old(socket_ref),
            *final(it.socket_ref) == *final(socket_ref),
    {
        NlMessageIter { socket_ref, data_type: PhantomData, data_payload: PhantomData }
    }

    /// The call that [`NlMessageIter::next`] needs the reply of, unless something is buffered.
    pub fn next_call(&self) -> (call: Option<SysCall>)
        ensures
            call == (if self.socket().buffer is None {
                Some(SysCall::Recv { fd: self.socket().fd, len: MAX_NL_LENGTH, flags: 0 })
            } else {
                None
            }),
    {
        self.socket_ref.recv_nl_call(None)
    }

    /// The next message, or why there is none. There is no end to the messages.
    pub fn next(&mut self, received: Option<SysReply>) -> (r: Option<Result<Nlmsghdr<T, P>, NlError>>)
        requires
            old(self).socket().buffer is None ==> received is Some,
        ensures
            r matches Some(item) && (final(self).socket(), result_view(item)) == received_nl::<T, P>(
                old(self).socket(),
                reply_view(received),
            ),
            *final(final(self).socket_ref) == *final(old(self).socket_ref),
    {
        Some(self.socket_ref.recv_nl(received))
    }
}

} // verus!
