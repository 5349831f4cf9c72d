//! Opening, binding and configuring a socket.

use crate::bytes::{is_native, ByteOrder};
use crate::consts::NlFamily;
use crate::groups::{group_mask, groups_valid, mask_of_groups};
use crate::socket::{NlSocket, SocketView};
use crate::sys::{
    af_netlink, f_getfl, f_setfl, is_machine_nonblock_flag, is_nonblock_flag, netlink_add_membership,
    nonblock_flag, sock_raw, sockaddr_nl_len, sol_netlink, SockaddrNl, Step, SysCall, SysReply,
};
use vstd::prelude::*;

verus! {

/// The address that a socket with the given netlink ID and groups is bound to.
pub open spec fn netlink_addr(pid: u32, groups: u32) -> SockaddrNl {
    SockaddrNl { nl_family: 16, nl_pid: pid, nl_groups: groups }
}

/// The call that opens a socket of the given family.
pub open spec fn socket_call(proto: NlFamily) -> SysCall {
    SysCall::Socket { domain: 16, ty: 3, protocol: proto.protocol() }
}

/// A socket that was just opened. Where requests are numbered, none has been sent yet.
pub open spec fn opened(fd: i32, order: ByteOrder, track_seq: bool) -> SocketView {
    SocketView {
        fd,
        order,
        buffer: None,
        pid: None,
        seq: if track_seq {
            Some(0)
        } else {
            None
        },
    }
}

/// What a change of the status flags waits for.
#[derive(Debug, Clone, Copy, PartialEq, Eq, Structural)]
pub enum FlagsState {
    /// The flags, to make the descriptor block.
    ReadToBlock,
    /// The flags, to make the descriptor not block.
    ReadToNonblock,
    /// That the flags were written.
    Write,
}

/// The call that reads the status flags.
pub open spec fn getfl_call(fd: i32) -> SysCall {
    SysCall::Fcntl { fd, cmd: 3, arg: 0 }
}

/// The status flags of a descriptor that blocks and has the other flags `flags`, where `m` is the
/// flag of one that does not.
pub open spec fn blocking_flags(flags: i32, m: i32) -> i32 {
    flags & !m
}

/// The status flags of a descriptor that does not block and has the other flags `flags`, where `m`
/// is the flag of one that does not.
pub open spec fn nonblocking_flags(flags: i32, m: i32) -> i32 {
    flags | m
}

/// Whether a descriptor with the status flags `flags` blocks, where `m` is the flag of one that does
/// not.
pub open spec fn flags_block(flags: i32, m: i32) -> bool {
    flags & m == 0
}

/// What follows in an operation that ends in success or failure: a call, or the end.
pub enum Next<S> {
    /// The call is made, and its reply is waited for as the state says.
    Call(S, SysCall),
    /// It ends, in success or not.
    Done(bool),
}

/// What a step that ends in success or failure stands for.
pub open spec fn next_view<S>(r: Step<S, Result<(), std::io::Error>>) -> Next<S> {
    match r {
        Step::Call(state, call) => Next::Call(state, call),
        Step::Done(done) => Next::Done(done is Ok),
    }
}

/// What follows in a change of the status flags when a call has returned `ret`, where `m` is the flag
/// of a descriptor that does not block.
pub open spec fn flags_next(fd: i32, state: FlagsState, ret: isize, m: i32) -> Next<FlagsState> {
    match state {
        FlagsState::ReadToBlock => Next::Call(
            FlagsState::Write,
            SysCall::Fcntl { fd, cmd: 4, arg: blocking_flags(ret as i32, m) },
        ),
        FlagsState::ReadToNonblock => Next::Call(
            FlagsState::Write,
            SysCall::Fcntl { fd, cmd: 4, arg: nonblocking_flags(ret as i32, m) },
        ),
        FlagsState::Write => Next::Done(ret >= 0),
    }
}

/// What binding a socket waits for.
#[derive(Debug, PartialEq, Eq)]
pub enum BindState {
    /// That the socket is bound, to then join the groups if there are any.
    Bind(Option<Vec<u32>>),
    /// That the groups are joined.
    Join,
    /// That the socket is bound, to then ask for its address.
    Bind2,
    /// The address of the socket.
    Name,
}

/// What a list of groups, if there is one, stands for.
pub open spec fn groups_view(groups: Option<Vec<u32>>) -> Option<Seq<u32>> {
    match groups {
        Some(g) => Some(g@),
        None => None,
    }
}

/// Whether every group, if there are any, has a bit.
pub open spec fn groups_ok(groups: Option<Seq<u32>>) -> bool {
    groups matches Some(g) ==> groups_valid(g)
}

/// The bits of the groups, none where there are no groups.
pub open spec fn groups_bits(groups: Option<Seq<u32>>) -> u32 {
    match groups {
        Some(g) => group_mask(g),
        None => 0,
    }
}

/// The call that binds a socket.
pub open spec fn bind_call(fd: i32, addr: SockaddrNl) -> SysCall {
    SysCall::Bind { fd, addr, addr_len: 12 }
}

/// The call that joins the groups whose bits are given.
pub open spec fn join_call(fd: i32, groups: u32) -> SysCall {
    SysCall::Setsockopt { fd, level: 270, name: 1, value: groups }
}

/// The socket when a call has returned the reply in binding it, and what follows. Joining groups
/// forgets the netlink ID, and asking for the address learns it.
pub open spec fn bind_next(s: SocketView, state: BindState, reply: SysReply) -> (SocketView, Next<BindState>) {
    match state {
        BindState::Bind(groups) => if reply.ret < 0 {
            (s, Next::Done(false))
        } else {
            match groups {
                Some(g) => (s, Next::Call(BindState::Join, join_call(s.fd, group_mask(g@)))),
                None => (s, Next::Done(true)),
            }
        },
        BindState::Join => if reply.ret == 0 {
            (SocketView { pid: None, ..s }, Next::Done(true))
        } else {
            (s, Next::Done(false))
        },
        BindState::Bind2 => if reply.ret < 0 {
            (s, Next::Done(false))
        } else {
            (s, Next::Call(BindState::Name, SysCall::Getsockname { fd: s.fd, addr_len: 12 }))
        },
        BindState::Name => if reply.ret == 0 && reply.addr_len == 12 {
            (SocketView { pid: Some(reply.addr.nl_pid), ..s }, Next::Done(true))
        } else {
            (s, Next::Done(false))
        },
    }
}

/// What connecting a socket waits for.
pub enum ConnectState {
    /// That the socket is open, to then bind it to a netlink ID and join groups.
    Open { pid: Option<u32>, groups: Option<Vec<u32>>, track_seq: bool },
    /// That the socket is open, to then bind it to groups and ask for its address.
    Open2 { groups: Option<Vec<u32>>, track_seq: bool },
    /// What binding the open socket waits for.
    Bind(NlSocket, BindState),
    /// That the socket is closed, which could not be bound because of the error.
    Close(std::io::Error),
}

impl ConnectState {
    /// Whether every group that the next call names has a bit.
    pub open spec fn valid(self) -> bool {
        match self {
            ConnectState::Open2 { groups, .. } => groups_ok(groups_view(groups)),
            ConnectState::Bind(_, BindState::Bind(groups)) => groups_ok(groups_view(groups)),
            _ => true,
        }
    }
}

/// Whether connecting goes on with binding the socket `s`, which waits for `state` and `call`.
pub open spec fn binds(
    r: Step<ConnectState, Result<NlSocket, std::io::Error>>,
    s: SocketView,
    state: BindState,
    call: SysCall,
) -> bool {
    r matches Step::Call(ConnectState::Bind(sock, st), c) && sock@ == s && st == state && c == call
}

/// Whether `r` is what follows in connecting a socket when a call has returned the reply, where
/// messages are in the given byte order. A socket that was opened and cannot be bound is closed.
pub open spec fn connect_follows(
    state: ConnectState,
    reply: SysReply,
    order: ByteOrder,
    r: Step<ConnectState, Result<NlSocket, std::io::Error>>,
) -> bool {
    let fd = reply.ret as i32;
    match state {
        ConnectState::Open { pid, groups, track_seq } => if reply.ret < 0 {
            r matches Step::Done(Err(_))
        } else {
            binds(
                r,
                SocketView { pid, ..opened(fd, order, track_seq) },
                BindState::Bind(groups),
                bind_call(fd, netlink_addr(pid.unwrap_or(0), 0)),
            )
        },
        ConnectState::Open2 { groups, track_seq } => if reply.ret < 0 {
            r matches Step::Done(Err(_))
        } else {
            binds(
                r,
                opened(fd, order, track_seq),
                BindState::Bind2,
                bind_call(fd, netlink_addr(0, groups_bits(groups_view(groups)))),
            )
        },
        ConnectState::Bind(sock, bind) => {
            let (after, next) = bind_next(sock@, bind, reply);
            match next {
                Next::Call(st, call) => binds(r, after, st, call),
                Next::Done(true) => r matches Step::Done(Ok(s)) && s@ == after,
                Next::Done(false) => r matches Step::Call(ConnectState::Close(_), call) && call
                    == close_call(after.fd),
            }
        },
        ConnectState::Close(e) => r == Step::<ConnectState, Result<NlSocket, std::io::Error>>::Done(Err(e)),
    }
}

/// The call that closes a socket.
pub open spec fn close_call(fd: i32) -> SysCall {
    SysCall::Close { fd }
}

impl NlSocket {
    /// The call that opens a socket of the given family.
    pub fn open(proto: NlFamily) -> (call: SysCall)
        ensures
            call == socket_call(proto),
    {
        SysCall::Socket { domain: af_netlink(), ty: sock_raw(), protocol: proto.to_i32() }
    }

    /// The socket that [`NlSocket::open`] opened, where it did, with messages in the byte order of
    /// the machine.
    pub fn new(reply: &SysReply, track_seq: bool) -> (r: Result<NlSocket, std::io::Error>)
        ensures
            r is Ok <==> reply.ret >= 0,
            r matches Ok(s) ==> is_native(s.order) && s@ == opened(reply.ret as i32, s.order, track_seq),
    {
        Self::new_with(reply, track_seq, ByteOrder::native())
    }

    /// The socket that [`NlSocket::open`] opened, where it did, with messages in the given byte
    /// order.
    pub fn new_with(reply: &SysReply, track_seq: bool, order: ByteOrder) -> (r: Result<
        NlSocket,
        std::io::Error,
    >)
        ensures
            r is Ok <==> reply.ret >= 0,
            r matches Ok(s) ==> s@ == opened(reply.ret as i32, order, track_seq),
    {
        if reply.ret >= 0 {
            Ok(
                NlSocket {
                    fd: reply.ret as i32,
                    order,
                    buffer: None,
                    pid: None,
                    seq: if track_seq {
                        Some(0)
                    } else {
                        None
                    },
                },
            )
        } else {
            Err(std::io::Error::last_os_error())
        }
    }

    /// Makes the descriptor block; [`NlSocket::flags_step`] goes on.
    pub fn block(&self) -> (r: (FlagsState, SysCall))
        ensures
            r == (FlagsState::ReadToBlock, getfl_call(self@.fd)),
    {
        (FlagsState::ReadToBlock, SysCall::Fcntl { fd: self.fd, cmd: f_getfl(), arg: 0 })
    }

    /// Makes the descriptor not block; [`NlSocket::flags_step`] goes on.
    pub fn nonblock(&self) -> (r: (FlagsState, SysCall))
        ensures
            r == (FlagsState::ReadToNonblock, getfl_call(self@.fd)),
    {
        (FlagsState::ReadToNonblock, SysCall::Fcntl { fd: self.fd, cmd: f_getfl(), arg: 0 })
    }

    /// What follows in a change of the status flags, where `m` is the flag of a descriptor that does
    /// not block.
    pub fn flags_step_with(&self, state: FlagsState, reply: &SysReply, m: i32) -> (r: Step<
        FlagsState,
        Result<(), std::io::Error>,
    >)
        ensures
            next_view(r) == flags_next(self@.fd, state, reply.ret, m),
    {
        let flags: i32 = reply.ret as i32;
        match state {
            FlagsState::ReadToBlock => Step::Call(
                FlagsState::Write,
                SysCall::Fcntl { fd: self.fd, cmd: f_setfl(), arg: flags & !m },
            ),
            FlagsState::ReadToNonblock => Step::Call(
                FlagsState::Write,
                SysCall::Fcntl { fd: self.fd, cmd: f_setfl(), arg: flags | m },
            ),
            FlagsState::Write => if reply.ret < 0 {
                Step::Done(Err(std::io::Error::last_os_error()))
            } else {
                Step::Done(Ok(()))
            },
        }
    }

    /// What follows in a change of the status flags.
    pub fn flags_step(&self, state: FlagsState, reply: &SysReply) -> (r: Step<
        FlagsState,
        Result<(), std::io::Error>,
    >)
        ensures
            exists|m: i32|
                is_machine_nonblock_flag(m) && is_nonblock_flag(m) && next_view(r) == #[trigger] flags_next(
                    self@.fd,
                    state,
                    reply.ret,
                    m,
                ),
    {
        self.flags_step_with(state, reply, nonblock_flag())
    }

    /// The call that asks whether the descriptor blocks; [`NlSocket::is_blocking_reply`] reads the
    /// answer.
    pub fn is_blocking(&self) -> (call: SysCall)
        ensures
            call == getfl_call(self@.fd),
    {
        SysCall::Fcntl { fd: self.fd, cmd: f_getfl(), arg: 0 }
    }

    /// Whether the descriptor blocks, where `m` is the flag of a descriptor that does not.
    pub fn is_blocking_with(reply: &SysReply, m: i32) -> (r: Result<bool, std::io::Error>)
        ensures
            r is Ok <==> reply.ret >= 0,
            r matches Ok(b) ==> b == flags_block(reply.ret as i32, m),
    {
        if reply.ret >= 0 {
            Ok((reply.ret as i32) & m == 0)
        } else {
            Err(std::io::Error::last_os_error())
        }
    }

    /// Whether the descriptor blocks.
    pub fn is_blocking_reply(reply: &SysReply) -> (r: Result<bool, std::io::Error>)
        ensures
            r is Ok <==> reply.ret >= 0,
            r matches Ok(b) ==> exists|m: i32|
                is_machine_nonblock_flag(m) && is_nonblock_flag(m) && b == #[trigger] flags_block(
                    reply.ret as i32,
                    m,
                ),
    {
        Self::is_blocking_with(reply, nonblock_flag())
    }

    /// Binds the socket to a netlink ID and then joins groups, if any are given;
    /// [`NlSocket::bind_step`] goes on. The socket takes the ID whether or not that succeeds.
    pub fn bind(&mut self, pid: Option<u32>, groups: Option<Vec<u32>>) -> (r: (BindState, SysCall))
        ensures
            final(self)@ == (SocketView { pid, ..old(self)@ }),
            r == (BindState::Bind(groups), bind_call(old(self)@.fd, netlink_addr(pid.unwrap_or(0), 0))),
    {
        self.pid = pid;
        let addr: SockaddrNl = SockaddrNl {
            nl_family: af_netlink() as u16,
            nl_pid: pid.unwrap_or(0),
            nl_groups: 0,
        };
        (BindState::Bind(groups), SysCall::Bind { fd: self.fd, addr, addr_len: sockaddr_nl_len() })
    }

    /// Binds the socket to groups, if any are given, and then asks for the netlink ID that it got;
    /// [`NlSocket::bind_step`] goes on.
    pub fn bind2(&mut self, groups: Option<Vec<u32>>) -> (r: (BindState, SysCall))
        requires
            groups_ok(groups_view(groups)),
        ensures
            final(self)@ == old(self)@,
            r == (
                BindState::Bind2,
                bind_call(old(self)@.fd, netlink_addr(0, groups_bits(groups_view(groups)))),
            ),
    {
        let nl_groups: u32 = match &groups {
            Some(g) => mask_of_groups(g),
            None => 0,
        };
        let addr: SockaddrNl = SockaddrNl { nl_family: af_netlink() as u16, nl_pid: 0, nl_groups };
        (BindState::Bind2, SysCall::Bind { fd: self.fd, addr, addr_len: sockaddr_nl_len() })
    }

    /// Joins groups; [`NlSocket::bind_step`] goes on.
    pub fn set_mcast_groups(&self, groups: &Vec<u32>) -> (r: (BindState, SysCall))
        requires
            groups_valid(groups@),
        ensures
            r == (BindState::Join, join_call(self@.fd, group_mask(groups@))),
    {
        (
            BindState::Join,
            SysCall::Setsockopt {
                fd: self.fd,
                level: sol_netlink(),
                name: netlink_add_membership(),
                value: mask_of_groups(groups),
            },
        )
    }

    /// What follows in binding the socket. Groups that are to be joined must have a bit each.
    pub fn bind_step(&mut self, state: BindState, reply: &SysReply) -> (r: Step<
        BindState,
        Result<(), std::io::Error>,
    >)
        requires
            reply.ret >= 0 ==> (state matches BindState::Bind(groups) ==> groups_ok(groups_view(groups))),
        ensures
            (final(self)@, next_view(r)) == bind_next(old(self)@, state, *reply),
    {
        match state {
            BindState::Bind(groups) => {
                if reply.ret < 0 {
                    return Step::Done(Err(std::io::Error::last_os_error()));
                }
                match groups {
                    Some(g) => {
                        let (next, call) = self.set_mcast_groups(&g);
                        Step::Call(next, call)
                    },
                    None => Step::Done(Ok(())),
                }
            },
            BindState::Join => {
                if reply.ret != 0 {
                    return Step::Done(Err(std::io::Error::last_os_error()));
                }
                self.pid = None;
                Step::Done(Ok(()))
            },
            BindState::Bind2 => {
                if reply.ret < 0 {
                    return Step::Done(Err(std::io::Error::last_os_error()));
                }
                Step::Call(
                    BindState::Name,
                    SysCall::Getsockname { fd: self.fd, addr_len: sockaddr_nl_len() },
                )
            },
            BindState::Name => {
                if reply.ret != 0 || reply.addr_len != sockaddr_nl_len() {
                    return Step::Done(Err(std::io::Error::last_os_error()));
                }
                self.pid = Some(reply.addr.nl_pid);
                Step::Done(Ok(()))
            },
        }
    }

    /// Opens a socket and binds it as [`NlSocket::bind`] does; [`NlSocket::connect_step`] goes on.
    pub fn connect(
        proto: NlFamily,
        pid: Option<u32>,
        groups: Option<Vec<u32>>,
        track_seq: bool,
    ) -> (r: (ConnectState, SysCall))
        ensures
            r == (ConnectState::Open { pid, groups, track_seq }, socket_call(proto)),
    {
        (ConnectState::Open { pid, groups, track_seq }, Self::open(proto))
    }

    /// Opens a socket and binds it as [`NlSocket::bind2`] does; [`NlSocket::connect_step`] goes on.
    pub fn connect2(proto: NlFamily, groups: Option<Vec<u32>>, track_seq: bool) -> (r: (ConnectState, SysCall))
        ensures
            r == (ConnectState::Open2 { groups, track_seq }, socket_call(proto)),
    {
        (ConnectState::Open2 { groups, track_seq }, Self::open(proto))
    }

    /// What follows in connecting a socket, with messages in the byte order of the machine. Groups
    /// that the next call names must have a bit each.
    pub fn connect_step(state: ConnectState, reply: &SysReply) -> (r: Step<
        ConnectState,
        Result<NlSocket, std::io::Error>,
    >)
        requires
            reply.ret >= 0 ==> state.valid(),
        ensures
            exists|order: ByteOrder|
                is_native(order) && #[trigger] connect_follows(state, *reply, order, r),
    {
        Self::connect_step_with(state, reply, ByteOrder::native())
    }

    /// What follows in connecting a socket, with messages in the given byte order. Groups that the
    /// next call names must have a bit each.
    pub fn connect_step_with(state: ConnectState, reply: &SysReply, order: ByteOrder) -> (r: Step<
        ConnectState,
        Result<NlSocket, std::io::Error>,
    >)
        requires
            reply.ret >= 0 ==> state.valid(),
        ensures
            connect_follows(state, *reply, order, r),
    {
        match state {
            ConnectState::Open { pid, groups, track_seq } => match Self::new_with(reply, track_seq, order) {
                Ok(sock) => {
                    let mut sock: NlSocket = sock;
                    let (bind, call) = sock.bind(pid, groups);
                    Step::Call(ConnectState::Bind(sock, bind), call)
                },
                Err(e) => Step::Done(Err(e)),
            },
            ConnectState::Open2 { groups, track_seq } => match Self::new_with(reply, track_seq, order) {
                Ok(sock) => {
                    let mut sock: NlSocket = sock;
                    let (bind, call) = sock.bind2(groups);
                    Step::Call(ConnectState::Bind(sock, bind), call)
                },
                Err(e) => Step::Done(Err(e)),
            },
            ConnectState::Bind(sock, bind) => {
                let mut sock: NlSocket = sock;
                match sock.bind_step(bind, reply) {
                    Step::Call(bind, call) => Step::Call(ConnectState::Bind(sock, bind), call),
                    Step::Done(Ok(())) => Step::Done(Ok(sock)),
                    Step::Done(Err(e)) => Step::Call(ConnectState::Close(e), sock.close()),
                }
            },
            ConnectState::Close(e) => Step::Done(Err(e)),
        }
    }

    /// The call that closes the socket.
    pub fn close(&self) -> (call: SysCall)
        ensures
            call == close_call(self@.fd),
    {
        SysCall::Close { fd: self.fd }
    }

    /// The file descriptor.
    pub fn as_raw_fd(&self) -> (fd: i32)
        ensures
            fd == self@.fd,
    {
        self.fd
    }

    /// The file descriptor, which is then its caller's to close.
    pub fn into_raw_fd(self) -> (fd: i32)
        ensures
            fd == self@.fd,
    {
        self.fd
    }
}

} // verus!
