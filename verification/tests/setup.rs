use neli::bytes::ByteOrder;
use neli::consts::NlFamily;
use neli::groups::{check_groups, mask_of_groups};
use neli::setup::{BindState, ConnectState, FlagsState};
use neli::socket::NlSocket;
use neli::sys::{nonblock_flag, SockaddrNl, Step, SysCall, SysReply};
use std::io;

/// A system with one socket.
struct System {
    flags: i32,
    bind_ret: isize,
    join_ret: isize,
    name: (isize, SockaddrNl, u32),
    calls: Vec<SysCall>,
}

impl System {
    fn new() -> System {
        System {
            flags: libc::O_RDWR,
            bind_ret: 0,
            join_ret: 0,
            name: (0, SockaddrNl { nl_family: 16, nl_pid: 4242, nl_groups: 0 }, 12),
            calls: Vec::new(),
        }
    }

    fn perform(&mut self, call: SysCall) -> SysReply {
        let reply = match &call {
            SysCall::Socket { .. } => SysReply::returned(7),
            SysCall::Fcntl { cmd, arg, .. } => {
                if *cmd == libc::F_SETFL {
                    self.flags = *arg;
                    SysReply::returned(0)
                } else {
                    SysReply::returned(self.flags as isize)
                }
            }
            SysCall::Bind { .. } => SysReply::returned(self.bind_ret),
            SysCall::Setsockopt { .. } => SysReply::returned(self.join_ret),
            SysCall::Getsockname { .. } => {
                let (ret, addr, addr_len) = self.name;
                SysReply { ret, mem: Vec::new(), addr, addr_len }
            }
            SysCall::Send { buf, .. } => SysReply::returned(buf.len() as isize),
            SysCall::Recv { len, .. } => SysReply {
                mem: vec![0; *len],
                ..SysReply::returned(would_block())
            },
            SysCall::Close { .. } => SysReply::returned(0),
        };
        self.calls.push(call);
        reply
    }

    fn connect(&mut self, start: (ConnectState, SysCall)) -> Result<NlSocket, io::Error> {
        let (mut state, mut call) = start;
        loop {
            let reply = self.perform(call);
            match NlSocket::connect_step(state, &reply) {
                Step::Call(next, then) => {
                    state = next;
                    call = then;
                }
                Step::Done(r) => return r,
            }
        }
    }

    fn set_flags(&mut self, s: &NlSocket, start: (FlagsState, SysCall)) -> Result<(), io::Error> {
        let (mut state, mut call) = start;
        loop {
            let reply = self.perform(call);
            match s.flags_step(state, &reply) {
                Step::Call(next, then) => {
                    state = next;
                    call = then;
                }
                Step::Done(r) => return r,
            }
        }
    }
}

/// Reads from a socket that does not block and has nothing to be read, so that the error of the last
/// system call is that it would block.
fn would_block() -> isize {
    let socket = mio::net::UdpSocket::bind(&"0.0.0.0:0".parse().unwrap()).unwrap();
    match socket.recv_from(&mut [0; 4]) {
        Ok((n, _)) => n as isize,
        Err(_) => -1,
    }
}

fn socket(fd: i32) -> NlSocket {
    NlSocket { fd, order: ByteOrder::native(), buffer: None, pid: None, seq: None }
}

fn bind_call(pid: u32, groups: u32) -> SysCall {
    SysCall::Bind {
        fd: 7,
        addr: SockaddrNl { nl_family: libc::AF_NETLINK as u16, nl_pid: pid, nl_groups: groups },
        addr_len: 12,
    }
}

fn open_call() -> SysCall {
    SysCall::Socket {
        domain: libc::AF_NETLINK,
        ty: libc::SOCK_RAW,
        protocol: libc::NETLINK_GENERIC,
    }
}

#[test]
fn test_socket_nonblock() {
    let mut system = System::new();
    let s = system.connect(NlSocket::connect(NlFamily::Generic, None, None, true)).unwrap();
    system.set_flags(&s, s.nonblock()).unwrap();
    let reply = system.perform(s.is_blocking());
    assert_eq!(NlSocket::is_blocking_reply(&reply).unwrap(), false);
    let buf = [0; 4];
    let reply = system.perform(s.recv(buf.len(), 0));
    match NlSocket::recv_reply(&reply) {
        Err(e) => {
            if e.kind() != io::ErrorKind::WouldBlock {
                panic!("Error: {}", e);
            }
        }
        Ok(_) => {
            panic!("Should not return data");
        }
    }
}

#[test]
fn connecting_opens_and_binds() {
    let mut system = System::new();
    let s = system.connect(NlSocket::connect(NlFamily::Generic, Some(99), None, true)).unwrap();
    assert_eq!(system.calls, vec![open_call(), bind_call(99, 0)]);
    assert_eq!((s.fd, s.pid, s.seq), (7, Some(99), Some(0)));
    assert!(s.buffer.is_none());
    assert_eq!(s.order, ByteOrder::native());
}

#[test]
fn a_socket_in_a_given_byte_order() {
    let opened = SysReply::returned(7);
    for order in [ByteOrder::Little, ByteOrder::Big] {
        let s = NlSocket::new_with(&opened, true, order).unwrap();
        assert_eq!((s.fd, s.order, s.pid, s.seq), (7, order, None, Some(0)));
        let (state, _) = NlSocket::connect2(NlFamily::Generic, None, false);
        match NlSocket::connect_step_with(state, &opened, order) {
            Step::Call(ConnectState::Bind(s, _), call) => {
                assert_eq!((s.order, s.seq), (order, None));
                assert_eq!(call, bind_call(0, 0));
            }
            _ => panic!("the socket is still to be bound"),
        }
    }
    assert!(NlSocket::new_with(&SysReply::returned(-1), true, ByteOrder::Big).is_err());
    assert_eq!(NlSocket::new(&opened, false).unwrap().order, ByteOrder::native());
}

#[test]
fn connecting_without_numbers_or_id() {
    let mut system = System::new();
    let s = system.connect(NlSocket::connect(NlFamily::Route, None, None, false)).unwrap();
    assert_eq!(
        system.calls,
        vec![
            SysCall::Socket { domain: 16, ty: 3, protocol: libc::NETLINK_ROUTE },
            bind_call(0, 0)
        ]
    );
    assert_eq!((s.pid, s.seq), (None, None));
}

#[test]
fn joining_groups_forgets_the_id() {
    let mut system = System::new();
    let start = NlSocket::connect(NlFamily::Generic, Some(99), Some(vec![1, 3]), true);
    let s = system.connect(start).unwrap();
    assert_eq!(
        system.calls,
        vec![
            open_call(),
            bind_call(99, 0),
            SysCall::Setsockopt {
                fd: 7,
                level: libc::SOL_NETLINK,
                name: libc::NETLINK_ADD_MEMBERSHIP,
                value: 5
            },
        ]
    );
    assert_eq!(s.pid, None);
}

#[test]
fn connecting_by_address_learns_the_id() {
    let mut system = System::new();
    let s = system.connect(NlSocket::connect2(NlFamily::Generic, Some(vec![2]), true)).unwrap();
    assert_eq!(
        system.calls,
        vec![
            open_call(),
            bind_call(0, 2),
            SysCall::Getsockname { fd: 7, addr_len: 12 }
        ]
    );
    assert_eq!(s.pid, Some(4242));
    assert_eq!(s.seq, Some(0));
}

#[test]
fn connecting_by_address_without_groups() {
    let mut system = System::new();
    let s = system.connect(NlSocket::connect2(NlFamily::Generic, None, false)).unwrap();
    assert_eq!(system.calls[1], bind_call(0, 0));
    assert_eq!((s.pid, s.seq), (Some(4242), None));
}

#[test]
fn a_socket_that_cannot_be_opened() {
    let (state, _) = NlSocket::connect(NlFamily::Generic, None, None, true);
    let r = NlSocket::connect_step(state, &SysReply::returned(-1));
    assert!(matches!(r, Step::Done(Err(_))));
    let (state, _) = NlSocket::connect2(NlFamily::Generic, None, true);
    let r = NlSocket::connect_step(state, &SysReply::returned(-1));
    assert!(matches!(r, Step::Done(Err(_))));
    assert!(NlSocket::new(&SysReply::returned(-1), true).is_err());
}

#[test]
fn a_socket_that_cannot_be_bound_is_closed() {
    let mut system = System::new();
    system.bind_ret = -1;
    let r = system.connect(NlSocket::connect(NlFamily::Generic, None, Some(vec![1]), true));
    assert!(r.is_err());
    assert_eq!(
        system.calls,
        vec![open_call(), bind_call(0, 0), SysCall::Close { fd: 7 }]
    );
    let mut system = System::new();
    system.bind_ret = -1;
    assert!(system.connect(NlSocket::connect2(NlFamily::Generic, None, true)).is_err());
    assert_eq!(system.calls.len(), 3);
    assert_eq!(system.calls[2], SysCall::Close { fd: 7 });
}

#[test]
fn a_socket_that_cannot_join_is_closed() {
    let mut system = System::new();
    system.join_ret = -1;
    let r = system.connect(NlSocket::connect(NlFamily::Generic, None, Some(vec![1]), true));
    assert!(r.is_err());
    assert_eq!(system.calls.len(), 4);
    assert_eq!(system.calls[3], SysCall::Close { fd: 7 });
}

#[test]
fn an_address_of_another_size_is_refused() {
    let mut system = System::new();
    system.name.2 = 16;
    assert!(system.connect(NlSocket::connect2(NlFamily::Generic, None, true)).is_err());
    assert_eq!(system.calls[3], SysCall::Close { fd: 7 });
    let mut system = System::new();
    system.name.0 = 1;
    assert!(system.connect(NlSocket::connect2(NlFamily::Generic, None, true)).is_err());
}

#[test]
fn the_id_is_taken_even_if_binding_fails() {
    let mut s = socket(7);
    let (state, call) = s.bind(Some(5), None);
    assert_eq!(state, BindState::Bind(None));
    assert_eq!(call, bind_call(5, 0));
    let r = s.bind_step(state, &SysReply::returned(-1));
    assert!(matches!(r, Step::Done(Err(_))));
    assert_eq!(s.pid, Some(5));
}

#[test]
fn joining_that_fails_keeps_the_id() {
    let mut s = socket(7);
    s.pid = Some(5);
    let (state, call) = s.set_mcast_groups(&vec![32]);
    assert_eq!(
        call,
        SysCall::Setsockopt { fd: 7, level: 270, name: 1, value: 0x8000_0000 }
    );
    let r = s.bind_step(state, &SysReply::returned(1));
    assert!(matches!(r, Step::Done(Err(_))));
    assert_eq!(s.pid, Some(5));
    let r = s.bind_step(BindState::Join, &SysReply::returned(0));
    assert!(matches!(r, Step::Done(Ok(()))));
    assert_eq!(s.pid, None);
}

#[test]
fn blocking_keeps_the_other_flags() {
    let mut system = System::new();
    system.flags = libc::O_RDWR | libc::O_APPEND;
    let s = socket(7);
    system.set_flags(&s, s.nonblock()).unwrap();
    assert_eq!(system.flags, libc::O_RDWR | libc::O_APPEND | libc::O_NONBLOCK);
    assert_eq!(
        system.calls,
        vec![
            SysCall::Fcntl { fd: 7, cmd: libc::F_GETFL, arg: 0 },
            SysCall::Fcntl {
                fd: 7,
                cmd: libc::F_SETFL,
                arg: libc::O_RDWR | libc::O_APPEND | libc::O_NONBLOCK
            },
        ]
    );
    let reply = system.perform(s.is_blocking());
    assert_eq!(NlSocket::is_blocking_reply(&reply).unwrap(), false);
    system.set_flags(&s, s.block()).unwrap();
    assert_eq!(system.flags, libc::O_RDWR | libc::O_APPEND);
    let reply = system.perform(s.is_blocking());
    assert_eq!(NlSocket::is_blocking_reply(&reply).unwrap(), true);
}

#[test]
fn the_flag_of_the_machine() {
    assert_eq!(nonblock_flag(), libc::O_NONBLOCK);
}

#[test]
fn flags_with_a_given_bit() {
    let s = socket(7);
    let r = s.flags_step_with(FlagsState::ReadToNonblock, &SysReply::returned(2), 0x800);
    match r {
        Step::Call(state, call) => {
            assert_eq!(state, FlagsState::Write);
            assert_eq!(call, SysCall::Fcntl { fd: 7, cmd: 4, arg: 0x802 });
        }
        Step::Done(_) => panic!("the flags are still to be written"),
    }
    let r = s.flags_step_with(FlagsState::ReadToBlock, &SysReply::returned(0x882), 0x80);
    match r {
        Step::Call(_, call) => assert_eq!(call, SysCall::Fcntl { fd: 7, cmd: 4, arg: 0x802 }),
        Step::Done(_) => panic!("the flags are still to be written"),
    }
    assert_eq!(NlSocket::is_blocking_with(&SysReply::returned(0x802), 0x800).unwrap(), false);
    assert_eq!(NlSocket::is_blocking_with(&SysReply::returned(0x802), 0x80).unwrap(), true);
}

#[test]
fn flags_that_cannot_be_read_or_written() {
    let s = socket(7);
    let failed = SysReply::returned(-1);
    assert!(NlSocket::is_blocking_reply(&failed).is_err());
    assert!(matches!(s.flags_step(FlagsState::Write, &failed), Step::Done(Err(_))));
    assert!(matches!(
        s.flags_step(FlagsState::Write, &SysReply::returned(0)),
        Step::Done(Ok(()))
    ));
}

#[test]
fn groups_as_bits() {
    assert_eq!(mask_of_groups(&vec![]), 0);
    assert_eq!(mask_of_groups(&vec![1]), 1);
    assert_eq!(mask_of_groups(&vec![32]), 0x8000_0000);
    assert_eq!(mask_of_groups(&vec![3, 1, 3]), 5);
    assert!(check_groups(&vec![]));
    assert!(check_groups(&vec![1, 32]));
    assert!(!check_groups(&vec![1, 0]));
    assert!(!check_groups(&vec![33]));
}

#[test]
fn the_descriptor_of_a_socket() {
    let s = socket(12);
    assert_eq!(s.as_raw_fd(), 12);
    assert_eq!(s.close(), SysCall::Close { fd: 12 });
    assert_eq!(s.into_raw_fd(), 12);
}

#[test]
fn the_numbers_of_the_families() {
    let families = [
        (NlFamily::Route, libc::NETLINK_ROUTE),
        (NlFamily::Unused, libc::NETLINK_UNUSED),
        (NlFamily::Usersock, libc::NETLINK_USERSOCK),
        (NlFamily::Firewall, libc::NETLINK_FIREWALL),
        (NlFamily::SockOrInetDiag, libc::NETLINK_SOCK_DIAG),
        (NlFamily::Nflog, libc::NETLINK_NFLOG),
        (NlFamily::Xfrm, libc::NETLINK_XFRM),
        (NlFamily::Selinux, libc::NETLINK_SELINUX),
        (NlFamily::Iscsi, libc::NETLINK_ISCSI),
        (NlFamily::Audit, libc::NETLINK_AUDIT),
        (NlFamily::FibLookup, libc::NETLINK_FIB_LOOKUP),
        (NlFamily::Connector, libc::NETLINK_CONNECTOR),
        (NlFamily::Netfilter, libc::NETLINK_NETFILTER),
        (NlFamily::Ip6Fw, libc::NETLINK_IP6_FW),
        (NlFamily::Dnrtmsg, libc::NETLINK_DNRTMSG),
        (NlFamily::KobjectUevent, libc::NETLINK_KOBJECT_UEVENT),
        (NlFamily::Generic, libc::NETLINK_GENERIC),
        (NlFamily::Scsitransport, libc::NETLINK_SCSITRANSPORT),
        (NlFamily::Ecryptfs, libc::NETLINK_ECRYPTFS),
        (NlFamily::Rdma, libc::NETLINK_RDMA),
        (NlFamily::Crypto, libc::NETLINK_CRYPTO),
    ];
    for (family, number) in families {
        match NlSocket::open(family) {
            SysCall::Socket { protocol, .. } => assert_eq!(protocol, number),
            _ => panic!("no socket is opened"),
        }
    }
}
