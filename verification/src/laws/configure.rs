//! What opening, binding and configuring a socket ask of the system and make of its replies.
//!
//! Each law speaks of whatever the operation returns: `call_ensures` says that a call of the
//! operation with those arguments may return that result.

use crate::bytes::{is_native, ByteOrder};
use crate::consts::NlFamily;
use crate::groups::{check_groups, has_bit, law_group_mask, mask_of_groups};
use crate::laws::exchange::same_buffer;
use crate::setup::{BindState, ConnectState, FlagsState};
use crate::socket::NlSocket;
use crate::sys::{is_machine_nonblock_flag, SysCall, SysReply, Step};
use vstd::prelude::*;

verus! {

/// Opening asks for a raw netlink socket of the family.
pub proof fn law_open(proto: NlFamily, call: SysCall)
    requires
        call_ensures(NlSocket::open, (proto,), call),
    ensures
        call == (SysCall::Socket { domain: 16, ty: 3, protocol: proto.protocol() }),
{
}

/// The families have the protocol numbers from zero on, in their order, with 17 left out.
pub proof fn law_protocols(a: NlFamily, b: NlFamily)
    ensures
        0 <= a.protocol() <= 21,
        a.protocol() != 17,
        a.protocol() == b.protocol() ==> a == b,
        NlFamily::Route.protocol() == 0,
        NlFamily::Generic.protocol() == 16,
{
}

/// A socket that was opened has the descriptor that was returned, nothing buffered and no ID. Where
/// requests are numbered none has been sent. Otherwise there is no socket.
pub proof fn law_opened(
    reply: SysReply,
    track_seq: bool,
    order: ByteOrder,
    given: Result<NlSocket, std::io::Error>,
    native: Result<NlSocket, std::io::Error>,
)
    requires
        call_ensures(NlSocket::new_with, (&reply, track_seq, order), given),
        call_ensures(NlSocket::new, (&reply, track_seq), native),
    ensures
        given is Ok <==> reply.ret >= 0,
        native is Ok <==> reply.ret >= 0,
        given matches Ok(s) ==> s.order == order && s.fd == reply.ret as i32 && s.buffer is None && s.pid is None
            && s.seq == (if track_seq {
            Some(0u32)
        } else {
            None
        }),
        native matches Ok(s) ==> is_native(s.order) && s.fd == reply.ret as i32 && s.buffer is None && s.pid is None
            && s.seq == (if track_seq {
            Some(0u32)
        } else {
            None
        }),
{
}

/// Making a descriptor block reads its flags and writes them again without the flag `m` and with all
/// others as they were. Making it not block writes them with that flag and the others as they were.
pub proof fn law_flags_changed(
    s: NlSocket,
    reply: SysReply,
    m: i32,
    block: (FlagsState, SysCall),
    nonblock: (FlagsState, SysCall),
    to_block: Step<FlagsState, Result<(), std::io::Error>>,
    to_nonblock: Step<FlagsState, Result<(), std::io::Error>>,
)
    requires
        call_ensures(NlSocket::block, (&s,), block),
        call_ensures(NlSocket::nonblock, (&s,), nonblock),
        call_ensures(NlSocket::flags_step_with, (&s, block.0, &reply, m), to_block),
        call_ensures(NlSocket::flags_step_with, (&s, nonblock.0, &reply, m), to_nonblock),
    ensures
        block.1 == (SysCall::Fcntl { fd: s.fd, cmd: 3, arg: 0 }),
        nonblock.1 == (SysCall::Fcntl { fd: s.fd, cmd: 3, arg: 0 }),
        to_block matches Step::Call(FlagsState::Write, SysCall::Fcntl { fd, cmd, arg }) && fd == s.fd && cmd == 4
            && arg & m == 0 && arg & !m == (reply.ret as i32) & !m,
        to_nonblock matches Step::Call(FlagsState::Write, SysCall::Fcntl { fd, cmd, arg }) && fd == s.fd && cmd
            == 4 && arg & m == m && arg & !m == (reply.ret as i32) & !m,
{
    let flags = reply.ret as i32;
    lemma_flag_bits(flags, m);
}

proof fn lemma_flag_bits(flags: i32, m: i32)
    ensures
        (flags & !m) & m == 0,
        (flags & !m) & !m == flags & !m,
        (flags | m) & m == m,
        (flags | m) & !m == flags & !m,
{
    assert((flags & !m) & m == 0) by (bit_vector);
    assert((flags & !m) & !m == flags & !m) by (bit_vector);
    assert((flags | m) & m == m) by (bit_vector);
    assert((flags | m) & !m == flags & !m) by (bit_vector);
}

/// With the flag of the machine the same holds of the step that takes no flag.
pub proof fn law_flags_of_machine(
    s: NlSocket,
    reply: SysReply,
    to_block: Step<FlagsState, Result<(), std::io::Error>>,
    to_nonblock: Step<FlagsState, Result<(), std::io::Error>>,
)
    requires
        call_ensures(NlSocket::flags_step, (&s, FlagsState::ReadToBlock, &reply), to_block),
        call_ensures(NlSocket::flags_step, (&s, FlagsState::ReadToNonblock, &reply), to_nonblock),
    ensures
        exists|m: i32| #[trigger]
            is_machine_nonblock_flag(m) && (to_block matches Step::Call(
                FlagsState::Write,
                SysCall::Fcntl { fd, cmd, arg },
            ) && fd == s.fd && cmd == 4 && arg & m == 0 && arg & !m == (reply.ret as i32) & !m),
        exists|m: i32| #[trigger]
            is_machine_nonblock_flag(m) && (to_nonblock matches Step::Call(
                FlagsState::Write,
                SysCall::Fcntl { fd, cmd, arg },
            ) && fd == s.fd && cmd == 4 && arg & m == m && arg & !m == (reply.ret as i32) & !m),
{
    let flags = reply.ret as i32;
    assert forall|m: i32| #[trigger] is_machine_nonblock_flag(m) implies (flags & !m) & m == 0 && (flags & !m) & !m
        == flags & !m && (flags | m) & m == m && (flags | m) & !m == flags & !m by {
        lemma_flag_bits(flags, m);
    }
}

/// A change of the flags succeeds just where the flags could be written.
pub proof fn law_flags_written(
    s: NlSocket,
    reply: SysReply,
    m: i32,
    given: Step<FlagsState, Result<(), std::io::Error>>,
    machine: Step<FlagsState, Result<(), std::io::Error>>,
)
    requires
        call_ensures(NlSocket::flags_step_with, (&s, FlagsState::Write, &reply, m), given),
        call_ensures(NlSocket::flags_step, (&s, FlagsState::Write, &reply), machine),
    ensures
        given matches Step::Done(done) && (done is Ok <==> reply.ret >= 0),
        machine matches Step::Done(done) && (done is Ok <==> reply.ret >= 0),
{
}

/// Whether a descriptor blocks is whether its flags lack the flag of one that does not.
pub proof fn law_is_blocking(
    s: NlSocket,
    reply: SysReply,
    m: i32,
    call: SysCall,
    given: Result<bool, std::io::Error>,
    machine: Result<bool, std::io::Error>,
)
    requires
        call_ensures(NlSocket::is_blocking, (&s,), call),
        call_ensures(NlSocket::is_blocking_with, (&reply, m), given),
        call_ensures(NlSocket::is_blocking_reply, (&reply,), machine),
    ensures
        call == (SysCall::Fcntl { fd: s.fd, cmd: 3, arg: 0 }),
        given is Ok <==> reply.ret >= 0,
        machine is Ok <==> reply.ret >= 0,
        given matches Ok(b) ==> (b <==> (reply.ret as i32) & m == 0),
        machine matches Ok(b) ==> exists|f: i32| #[trigger]
            is_machine_nonblock_flag(f) && (b <==> (reply.ret as i32) & f == 0),
{
}

/// Whether every group is numbered from 1 to 32.
pub open spec fn numbered(groups: Seq<u32>) -> bool {
    forall|k: int| 0 <= k < groups.len() ==> 1 <= #[trigger] groups[k] && groups[k] <= 32
}

/// Whether the bits of `mask` are those of just these groups: group 1 has the lowest bit.
pub open spec fn bits_of(mask: u32, groups: Seq<u32>) -> bool {
    forall|i: u32|
        i < 32 ==> ((#[trigger] (mask >> i)) & 1 == 1 <==> exists|k: int|
            0 <= k < groups.len() && #[trigger] groups[k] == i + 1)
}

/// The groups that can be had are those numbered from 1 to 32, and their number has their bits.
pub proof fn law_groups(groups: Vec<u32>, valid: bool, mask: u32)
    requires
        call_ensures(check_groups, (&groups,), valid),
        numbered(groups@) ==> call_ensures(mask_of_groups, (&groups,), mask),
    ensures
        valid <==> numbered(groups@),
        numbered(groups@) ==> bits_of(mask, groups@),
{
    if numbered(groups@) {
        lemma_bits_of(groups@);
    }
}

proof fn lemma_bits_of(groups: Seq<u32>)
    requires
        numbered(groups),
    ensures
        bits_of(crate::groups::group_mask(groups), groups),
{
    let mask = crate::groups::group_mask(groups);
    law_group_mask(groups);
    assert forall|i: u32| i < 32 implies ((#[trigger] (mask >> i)) & 1 == 1 <==> exists|k: int|
        0 <= k < groups.len() && #[trigger] groups[k] == i + 1) by {
        assert(has_bit(mask, i) <==> groups.contains((i + 1) as u32));
    }
}

/// Binding to an ID asks for the address of that ID, or of none, without groups. The socket has that
/// ID from then on and is otherwise as it was.
pub proof fn law_bind(s: &mut NlSocket, pid: Option<u32>, groups: Option<Vec<u32>>, r: (BindState, SysCall))
    requires
        call_ensures(NlSocket::bind, (s, pid, groups), r),
    ensures
        final(s).pid == pid,
        final(s).fd == old(s).fd,
        final(s).order == old(s).order,
        final(s).seq == old(s).seq,
        same_buffer(*final(s), *old(s)),
        r.0 == BindState::Bind(groups),
        r.1 matches SysCall::Bind { fd, addr, addr_len } && fd == old(s).fd && addr.nl_family == 16 && addr.nl_pid
            == (if pid is Some {
            pid->0
        } else {
            0
        }) && addr.nl_groups == 0 && addr_len == 12,
{
}

/// Binding to groups asks for an address that has the bits of just those groups and no ID. The socket
/// is as it was.
pub proof fn law_bind2(s: &mut NlSocket, groups: Option<Vec<u32>>, r: (BindState, SysCall))
    requires
        call_ensures(NlSocket::bind2, (s, groups), r),
        groups matches Some(g) ==> numbered(g@),
    ensures
        final(s).pid == old(s).pid,
        final(s).fd == old(s).fd,
        final(s).order == old(s).order,
        final(s).seq == old(s).seq,
        same_buffer(*final(s), *old(s)),
        r.0 == BindState::Bind2,
        r.1 matches SysCall::Bind { fd, addr, addr_len } && fd == old(s).fd && addr.nl_family == 16 && addr.nl_pid
            == 0 && addr_len == 12 && bits_of(
            addr.nl_groups,
            if groups is Some {
                groups->0@
            } else {
                Seq::empty()
            },
        ) && (groups is None ==> addr.nl_groups == 0),
{
    match groups {
        Some(g) => lemma_bits_of(g@),
        None => lemma_bits_of(Seq::empty()),
    }
}

/// Joining groups asks for the option with the bits of just those groups.
pub proof fn law_set_mcast_groups(s: NlSocket, groups: Vec<u32>, r: (BindState, SysCall))
    requires
        call_ensures(NlSocket::set_mcast_groups, (&s, &groups), r),
        numbered(groups@),
    ensures
        r.0 == BindState::Join,
        r.1 matches SysCall::Setsockopt { fd, level, name, value } && fd == s.fd && level == 270 && name == 1
            && bits_of(value, groups@),
{
    lemma_bits_of(groups@);
}

/// A socket that could not be bound keeps its ID. One that is bound then joins its groups, where it
/// has any.
pub proof fn law_bind_replied(
    s: &mut NlSocket,
    groups: Option<Vec<u32>>,
    reply: SysReply,
    r: Step<BindState, Result<(), std::io::Error>>,
)
    requires
        call_ensures(NlSocket::bind_step, (s, BindState::Bind(groups), &reply), r),
        groups matches Some(g) ==> numbered(g@),
    ensures
        final(s)@ == old(s)@,
        reply.ret < 0 ==> (r matches Step::Done(Err(_))),
        reply.ret >= 0 && groups is None ==> (r matches Step::Done(Ok(_))),
        reply.ret >= 0 && groups is Some ==> (r matches Step::Call(
            BindState::Join,
            SysCall::Setsockopt { fd, level, name, value },
        ) && fd == old(s).fd && level == 270 && name == 1 && bits_of(value, groups->0@)),
{
    if groups is Some {
        lemma_bits_of(groups->0@);
    }
}

/// A socket that has joined its groups has no ID, and one that could not keeps its own.
pub proof fn law_join_replied(s: &mut NlSocket, reply: SysReply, r: Step<BindState, Result<(), std::io::Error>>)
    requires
        call_ensures(NlSocket::bind_step, (s, BindState::Join, &reply), r),
    ensures
        final(s).fd == old(s).fd,
        final(s).order == old(s).order,
        final(s).seq == old(s).seq,
        same_buffer(*final(s), *old(s)),
        r matches Step::Done(done) && (done is Ok <==> reply.ret == 0),
        final(s).pid == (if reply.ret == 0 {
            None
        } else {
            old(s).pid
        }),
{
}

/// A socket that is bound to groups asks for its address, whose ID it then has. An address of another
/// size than asked for, and a failure, leave its ID.
pub proof fn law_bind2_replied(
    s: &mut NlSocket,
    t: &mut NlSocket,
    reply: SysReply,
    bound: Step<BindState, Result<(), std::io::Error>>,
    named: Step<BindState, Result<(), std::io::Error>>,
)
    requires
        call_ensures(NlSocket::bind_step, (s, BindState::Bind2, &reply), bound),
        call_ensures(NlSocket::bind_step, (t, BindState::Name, &reply), named),
    ensures
        final(s)@ == old(s)@,
        reply.ret < 0 ==> (bound matches Step::Done(Err(_))),
        reply.ret >= 0 ==> (bound matches Step::Call(BindState::Name, SysCall::Getsockname { fd, addr_len }) && fd
            == old(s).fd && addr_len == 12),
        final(t).fd == old(t).fd,
        final(t).order == old(t).order,
        final(t).seq == old(t).seq,
        same_buffer(*final(t), *old(t)),
        named matches Step::Done(done) && (done is Ok <==> reply.ret == 0 && reply.addr_len == 12),
        final(t).pid == (if reply.ret == 0 && reply.addr_len == 12 {
            Some(reply.addr.nl_pid)
        } else {
            old(t).pid
        }),
{
}

/// Connecting starts with opening, and keeps what it was given for then.
pub proof fn law_connect(
    proto: NlFamily,
    pid: Option<u32>,
    groups: Option<Vec<u32>>,
    track_seq: bool,
    r: (ConnectState, SysCall),
    r2: (ConnectState, SysCall),
)
    requires
        call_ensures(NlSocket::connect, (proto, pid, groups, track_seq), r),
        call_ensures(NlSocket::connect2, (proto, groups, track_seq), r2),
    ensures
        r.1 == (SysCall::Socket { domain: 16, ty: 3, protocol: proto.protocol() }),
        r.0 == (ConnectState::Open { pid, groups, track_seq }),
        r2.1 == (SysCall::Socket { domain: 16, ty: 3, protocol: proto.protocol() }),
        r2.0 == (ConnectState::Open2 { groups, track_seq }),
{
}

/// Whether `s` is a socket that was just opened, but for the ID that it is to be bound to.
pub open spec fn just_opened(s: NlSocket, fd: i32, order: ByteOrder, pid: Option<u32>, track_seq: bool) -> bool {
    &&& s.fd == fd
    &&& s.order == order
    &&& s.buffer is None
    &&& s.pid == pid
    &&& s.seq == (if track_seq {
        Some(0u32)
    } else {
        None
    })
}

/// A socket that was opened is bound next, to its ID or to its groups. A failure to open it ends
/// connecting.
pub proof fn law_connect_opened(
    pid: Option<u32>,
    groups: Option<Vec<u32>>,
    track_seq: bool,
    reply: SysReply,
    order: ByteOrder,
    r: Step<ConnectState, Result<NlSocket, std::io::Error>>,
    r2: Step<ConnectState, Result<NlSocket, std::io::Error>>,
)
    requires
        call_ensures(
            NlSocket::connect_step_with,
            (ConnectState::Open { pid, groups, track_seq }, &reply, order),
            r,
        ),
        call_ensures(NlSocket::connect_step_with, (ConnectState::Open2 { groups, track_seq }, &reply, order), r2),
        groups matches Some(g) ==> numbered(g@),
    ensures
        reply.ret < 0 ==> (r matches Step::Done(Err(_))) && (r2 matches Step::Done(Err(_))),
        reply.ret >= 0 ==> (r matches Step::Call(
            ConnectState::Bind(s, BindState::Bind(later)),
            SysCall::Bind { fd, addr, addr_len },
        ) && just_opened(s, reply.ret as i32, order, pid, track_seq) && later == groups && fd == s.fd
            && addr.nl_family == 16 && addr.nl_pid == (if pid is Some {
            pid->0
        } else {
            0
        }) && addr.nl_groups == 0 && addr_len == 12),
        reply.ret >= 0 ==> (r2 matches Step::Call(
            ConnectState::Bind(s, BindState::Bind2),
            SysCall::Bind { fd, addr, addr_len },
        ) && just_opened(s, reply.ret as i32, order, None, track_seq) && fd == s.fd && addr.nl_family == 16
            && addr.nl_pid == 0 && addr_len == 12 && bits_of(
            addr.nl_groups,
            if groups is Some {
                groups->0@
            } else {
                Seq::empty()
            },
        ) && (groups is None ==> addr.nl_groups == 0)),
{
    match groups {
        Some(g) => lemma_bits_of(g@),
        None => lemma_bits_of(Seq::empty()),
    }
}

/// Connecting goes on as binding the socket by itself does, and ends in that socket where binding
/// succeeds. Where binding fails the socket is closed, and then connecting fails with the error that
/// it was closed for.
pub proof fn law_connect_binds(
    sock: NlSocket,
    bind: BindState,
    reply: SysReply,
    order: ByteOrder,
    r: Step<ConnectState, Result<NlSocket, std::io::Error>>,
    s: &mut NlSocket,
    alone: Step<BindState, Result<(), std::io::Error>>,
    e: std::io::Error,
    closed: Step<ConnectState, Result<NlSocket, std::io::Error>>,
)
    requires
        call_ensures(NlSocket::connect_step_with, (ConnectState::Bind(sock, bind), &reply, order), r),
        call_ensures(NlSocket::bind_step, (s, bind, &reply), alone),
        *old(s) == sock,
        call_ensures(NlSocket::connect_step_with, (ConnectState::Close(e), &reply, order), closed),
    ensures
        alone matches Step::Call(state, call) ==> (r matches Step::Call(ConnectState::Bind(after, next), then)
            && after@ == final(s)@ && next == state && then == call),
        alone matches Step::Done(Ok(_)) ==> (r matches Step::Done(Ok(after)) && after@ == final(s)@),
        alone matches Step::Done(Err(_)) ==> (r matches Step::Call(ConnectState::Close(_), SysCall::Close { fd })
            && fd == sock.fd),
        closed matches Step::Done(Err(x)) && x == e,
{
}

/// Connecting in the byte order of the machine is connecting in that order.
pub proof fn law_connect_native(
    state: ConnectState,
    reply: SysReply,
    r: Step<ConnectState, Result<NlSocket, std::io::Error>>,
)
    requires
        call_ensures(NlSocket::connect_step, (state, &reply), r),
        state is Open || state is Open2,
    ensures
        reply.ret < 0 ==> (r matches Step::Done(Err(_))),
        reply.ret >= 0 ==> (r matches Step::Call(ConnectState::Bind(s, _), SysCall::Bind { fd, addr, addr_len })
            && is_native(s.order) && s.fd == reply.ret as i32 && s.buffer is None && fd == s.fd && addr.nl_family
            == 16 && addr_len == 12 && s.pid == (if state is Open {
            state->Open_pid
        } else {
            None
        })),
{
}

/// Closing names the descriptor, and so do the ways to get at it.
pub proof fn law_descriptor(s: NlSocket, call: SysCall, borrowed: i32, owned: i32)
    requires
        call_ensures(NlSocket::close, (&s,), call),
        call_ensures(NlSocket::as_raw_fd, (&s,), borrowed),
        call_ensures(NlSocket::into_raw_fd, (s,), owned),
    ensures
        call == (SysCall::Close { fd: s.fd }),
        borrowed == s.fd,
        owned == s.fd,
{
}

} // verus!
