use buffering::copy::StreamWriteBuffer;
use neli::bytes::ByteOrder;
use neli::consts::{Rtm, MAX_NL_LENGTH};
use neli::nl::Nlmsghdr;
use neli::setup::FlagsState;
use neli::sys::{Step, SysCall, SysReply};
use neli::tokio::{Async, NewState, NlSocket, PollError, PollRead};
use std::io;

type Socket = NlSocket<Rtm, u32>;

fn plain() -> neli::socket::NlSocket {
    neli::socket::NlSocket { fd: 7, order: ByteOrder::Big, buffer: None, pid: None, seq: None }
}

fn made() -> Socket {
    let sock = plain();
    let (state, _) = Socket::new(&sock);
    match Socket::new_step_with(&sock, state, &SysReply::returned(0x800), 0x800) {
        Step::Done(Ok(s)) => s,
        _ => panic!("the descriptor does not block"),
    }
}

fn data(pid: u32, payload: u32) -> Nlmsghdr<Rtm, u32> {
    Nlmsghdr::new(None, Rtm::Done, vec![], None, Some(pid), Some(payload))
}

fn read(msgs: &[Nlmsghdr<Rtm, u32>]) -> Option<PollRead> {
    let mut mem = Vec::new();
    let mut stream = StreamWriteBuffer::new_growable_ref(&mut mem);
    for msg in msgs {
        msg.serialize(ByteOrder::Big, &mut stream).unwrap();
    }
    let n = mem.len();
    mem.resize(MAX_NL_LENGTH, 0);
    Some(PollRead::Ready(n, mem))
}

#[test]
fn a_descriptor_that_blocks_is_made_not_to() {
    let sock = plain();
    let (state, call) = Socket::new(&sock);
    assert_eq!(state, NewState::Ask);
    assert_eq!(call, SysCall::Fcntl { fd: 7, cmd: libc::F_GETFL, arg: 0 });
    let flags = SysReply::returned(libc::O_RDWR as isize);
    let state = match Socket::new_step(&sock, state, &flags) {
        Step::Call(state, call) => {
            assert_eq!(state, NewState::Flags(FlagsState::ReadToNonblock));
            assert_eq!(call, SysCall::Fcntl { fd: 7, cmd: libc::F_GETFL, arg: 0 });
            state
        }
        Step::Done(_) => panic!("the descriptor blocks"),
    };
    let state = match Socket::new_step(&sock, state, &flags) {
        Step::Call(state, call) => {
            assert_eq!(
                call,
                SysCall::Fcntl { fd: 7, cmd: libc::F_SETFL, arg: libc::O_RDWR | libc::O_NONBLOCK }
            );
            state
        }
        Step::Done(_) => panic!("the flags are still to be written"),
    };
    assert!(matches!(
        Socket::new_step(&sock, state, &SysReply::returned(-1)),
        Step::Done(Err(_))
    ));
    match Socket::new_step(&sock, state, &SysReply::returned(0)) {
        Step::Done(Ok(s)) => {
            assert!(s.empty());
            assert_eq!(s.order, ByteOrder::Big);
        }
        _ => panic!("the flags are written"),
    }
}

#[test]
fn a_descriptor_that_does_not_block_is_left() {
    let sock = plain();
    let (state, _) = Socket::new(&sock);
    let flags = SysReply::returned((libc::O_RDWR | libc::O_NONBLOCK) as isize);
    assert!(matches!(Socket::new_step(&sock, state, &flags), Step::Done(Ok(_))));
    assert!(matches!(
        Socket::new_step(&sock, state, &SysReply::returned(-1)),
        Step::Done(Err(_))
    ));
}

#[test]
fn messages_are_polled_in_their_order() {
    let mut s = made();
    assert_eq!(s.poll_len(), Some(MAX_NL_LENGTH));
    let msgs = [data(1, 10), data(2, 20), data(1, 30)];
    for (i, msg) in msgs.iter().enumerate() {
        assert_eq!(s.poll_len().is_some(), i == 0);
        let received = if i == 0 { read(&msgs) } else { None };
        match s.poll(received) {
            Ok(Async::Ready(Some(m))) => assert_eq!(m, *msg),
            _ => panic!("a message is ready"),
        }
    }
    assert!(s.empty());
    assert_eq!(s.poll_len(), Some(MAX_NL_LENGTH));
    match s.poll(read(&msgs[1..2])) {
        Ok(Async::Ready(Some(m))) => assert_eq!(m, msgs[1]),
        _ => panic!("a message is ready"),
    }
}

#[test]
fn nothing_is_ready() {
    let mut s = made();
    assert!(matches!(s.poll(Some(PollRead::NotReady)), Ok(Async::NotReady)));
    assert!(matches!(
        s.poll(Some(PollRead::Ready(0, vec![0; 8]))),
        Ok(Async::Ready(None))
    ));
    let failed = io::Error::from(io::ErrorKind::PermissionDenied);
    match s.poll(Some(PollRead::Failed(failed))) {
        Err(PollError::Io(e)) => assert_eq!(e.kind(), io::ErrorKind::PermissionDenied),
        _ => panic!("reading failed"),
    }
    assert!(s.empty());
}

#[test]
fn what_is_received_is_no_message() {
    let mut s = made();
    assert!(matches!(
        s.poll(Some(PollRead::Ready(3, vec![1, 2, 3, 4]))),
        Err(PollError::InvalidData)
    ));
    assert!(!s.empty());
    assert!(matches!(s.poll(None), Err(PollError::InvalidData)));
}
