//! What making a socket one of an event loop asks of the system, and what polling it hands out.
//!
//! Each law speaks of whatever the operation returns: `call_ensures` says that a call of the
//! operation with those arguments may return that result.

use crate::buffer::{stream_marked, stream_unread};
use crate::consts::NlType;
use crate::nl::{read_msg, Nl, Nlmsghdr};
use crate::setup::FlagsState;
use crate::sys::{is_machine_nonblock_flag, Step, SysCall, SysReply};
use crate::tokio::{Async, NewState, NlSocket, PollError, PollRead};
use vstd::prelude::*;

verus! {

/// Making a socket one of an event loop first asks for the flags of its descriptor.
pub proof fn law_event_loop_asked<T: NlType, P: Nl>(sock: crate::socket::NlSocket, r: (NewState, SysCall))
    requires
        call_ensures(NlSocket::<T, P>::new, (&sock,), r),
    ensures
        r == (NewState::Ask, SysCall::Fcntl { fd: sock.fd, cmd: 3, arg: 0 }),
{
}

/// Whether `r` ends in a socket of an event loop that nothing was received on, in the byte order of
/// `sock`.
pub open spec fn made_from<T, P>(
    r: Step<NewState, Result<NlSocket<T, P>, std::io::Error>>,
    sock: crate::socket::NlSocket,
) -> bool {
    r matches Step::Done(Ok(s)) && s.order == sock.order && s.buffer is None
}

/// A descriptor whose flags cannot be read is a failure, one that does not block is left as it is, and
/// of one that blocks the flags are read again to be changed.
pub proof fn law_event_loop_flags_asked<T: NlType, P: Nl>(
    sock: crate::socket::NlSocket,
    reply: SysReply,
    m: i32,
    r: Step<NewState, Result<NlSocket<T, P>, std::io::Error>>,
)
    requires
        call_ensures(NlSocket::<T, P>::new_step_with, (&sock, NewState::Ask, &reply, m), r),
    ensures
        reply.ret < 0 ==> (r matches Step::Done(Err(_))),
        reply.ret >= 0 && (reply.ret as i32) & m != 0 ==> made_from(r, sock),
        reply.ret >= 0 && (reply.ret as i32) & m == 0 ==> (r matches Step::Call(
            NewState::Flags(FlagsState::ReadToNonblock),
            SysCall::Fcntl { fd, cmd, arg },
        ) && fd == sock.fd && cmd == 3 && arg == 0),
{
}

/// The flags are written with the flag of a descriptor that does not block and the others as they
/// were. Where that succeeds there is a socket of an event loop, and else a failure.
pub proof fn law_event_loop_flags_changed<T: NlType, P: Nl>(
    sock: crate::socket::NlSocket,
    reply: SysReply,
    m: i32,
    read: Step<NewState, Result<NlSocket<T, P>, std::io::Error>>,
    written: Step<NewState, Result<NlSocket<T, P>, std::io::Error>>,
)
    requires
        call_ensures(
            NlSocket::<T, P>::new_step_with,
            (&sock, NewState::Flags(FlagsState::ReadToNonblock), &reply, m),
            read,
        ),
        call_ensures(NlSocket::<T, P>::new_step_with, (&sock, NewState::Flags(FlagsState::Write), &reply, m), written),
    ensures
        read matches Step::Call(NewState::Flags(FlagsState::Write), SysCall::Fcntl { fd, cmd, arg }) && fd == sock.fd
            && cmd == 4 && arg & m == m && arg & !m == (reply.ret as i32) & !m,
        reply.ret >= 0 ==> made_from(written, sock),
        reply.ret < 0 ==> (written matches Step::Done(Err(_))),
{
    let flags = reply.ret as i32;
    assert((flags | m) & m == m) by (bit_vector);
    assert((flags | m) & !m == flags & !m) by (bit_vector);
}

/// With the flag of the machine a descriptor that is found not to block is left as it is, and one that
/// blocks is written flags with which it does not.
pub proof fn law_event_loop_of_machine<T: NlType, P: Nl>(
    sock: crate::socket::NlSocket,
    reply: SysReply,
    asked: Step<NewState, Result<NlSocket<T, P>, std::io::Error>>,
    read: Step<NewState, Result<NlSocket<T, P>, std::io::Error>>,
    written: Step<NewState, Result<NlSocket<T, P>, std::io::Error>>,
)
    requires
        call_ensures(NlSocket::<T, P>::new_step, (&sock, NewState::Ask, &reply), asked),
        call_ensures(NlSocket::<T, P>::new_step, (&sock, NewState::Flags(FlagsState::ReadToNonblock), &reply), read),
        call_ensures(NlSocket::<T, P>::new_step, (&sock, NewState::Flags(FlagsState::Write), &reply), written),
    ensures
        reply.ret < 0 ==> (asked matches Step::Done(Err(_))),
        reply.ret >= 0 ==> exists|m: i32| #[trigger]
            is_machine_nonblock_flag(m) && (if (reply.ret as i32) & m != 0 {
                made_from(asked, sock)
            } else {
                asked matches Step::Call(
                    NewState::Flags(FlagsState::ReadToNonblock),
                    SysCall::Fcntl { fd, cmd, arg },
                ) && fd == sock.fd && cmd == 3 && arg == 0
            }),
        exists|m: i32| #[trigger]
            is_machine_nonblock_flag(m) && (read matches Step::Call(
                NewState::Flags(FlagsState::Write),
                SysCall::Fcntl { fd, cmd, arg },
            ) && fd == sock.fd && cmd == 4 && arg & m == m && arg & !m == (reply.ret as i32) & !m),
        reply.ret >= 0 ==> made_from(written, sock),
        reply.ret < 0 ==> (written matches Step::Done(Err(_))),
{
    let flags = reply.ret as i32;
    assert forall|m: i32| #[trigger] is_machine_nonblock_flag(m) implies (flags | m) & m == m && (flags | m) & !m
        == flags & !m by {
        assert((flags | m) & m == m) by (bit_vector);
        assert((flags | m) & !m == flags & !m) by (bit_vector);
    }
}

/// Whether nothing is left to hand out: nothing was received, or all of it was read.
pub open spec fn all_read<T, P>(s: NlSocket<T, P>) -> bool {
    s.buffer matches Some(b) ==> stream_unread(b).len() == 0
}

/// Bytes are asked for just where nothing is left: as many as the longest message has.
pub proof fn law_poll_asked<T: NlType, P: Nl>(s: NlSocket<T, P>, empty: bool, len: Option<usize>)
    requires
        call_ensures(NlSocket::<T, P>::empty, (&s,), empty),
        call_ensures(NlSocket::<T, P>::poll_len, (&s,), len),
    ensures
        empty <==> all_read(s),
        all_read(s) ==> len == Some(32768usize),
        !all_read(s) ==> len is None,
{
}

/// Where nothing is left, and whether or not anything was received before, a read that is not ready
/// gives nothing yet, a read of no bytes gives the end, and a read that failed gives its own failure.
/// None of them changes the socket.
pub proof fn law_poll_without_bytes<T: NlType, P: Nl>(
    s: &mut NlSocket<T, P>,
    read: PollRead,
    r: Result<Async<Option<Nlmsghdr<T, P>>>, PollError>,
)
    requires
        call_ensures(NlSocket::<T, P>::poll, (s, Some(read)), r),
        all_read(*old(s)),
        !(read matches PollRead::Ready(n, _) && n > 0),
    ensures
        final(s)@ == old(s)@,
        read is NotReady ==> (r matches Ok(Async::NotReady)),
        read is Ready ==> (r matches Ok(Async::Ready(None))),
        read matches PollRead::Failed(e) ==> (r matches Err(PollError::Io(x)) && x == e),
{
}

/// Whether the next message is to be read from `u`: what is left, or where nothing is the bytes that
/// were read, of which there are some.
pub open spec fn polls_from<T, P>(s: NlSocket<T, P>, read: Option<PollRead>, u: Seq<u8>) -> bool {
    if all_read(s) {
        read matches Some(PollRead::Ready(n, mem)) && n > 0 && u == (if n <= mem@.len() {
            mem@.take(n as int)
        } else {
            mem@
        })
    } else {
        u == stream_unread(s.buffer->0)
    }
}

/// Otherwise the message at the start of the bytes is handed out, whoever sent it, and what is behind
/// it is left. Where there is none that is a failure of its own, and all of the bytes stay. The end
/// and nothing yet are not handed out.
pub proof fn law_polled<T: NlType, P: Nl>(
    s: &mut NlSocket<T, P>,
    read: Option<PollRead>,
    u: Seq<u8>,
    r: Result<Async<Option<Nlmsghdr<T, P>>>, PollError>,
)
    requires
        call_ensures(NlSocket::<T, P>::poll, (s, read), r),
        polls_from(*old(s), read, u),
    ensures
        final(s).order == old(s).order,
        match read_msg::<T, P>(old(s).order, u) {
            Ok((m, n)) => {
                &&& r matches Ok(Async::Ready(Some(msg))) && msg@ == m
                &&& final(s).buffer matches Some(b) && stream_unread(b) == u.skip(n as int) && stream_marked(b) == u
            },
            Err(_) => {
                &&& r matches Err(PollError::InvalidData)
                &&& final(s).buffer matches Some(b) && stream_unread(b) == u
            },
        },
{
    if all_read(*old(s)) {
        let mem = read->0->Ready_1@;
        assert(mem.take(mem.len() as int) =~= mem);
    }
}

} // verus!
