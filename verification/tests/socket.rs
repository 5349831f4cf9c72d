use buffering::copy::{StreamReadBuffer, StreamWriteBuffer};
use neli::bytes::ByteOrder;
use neli::consts::{CtrlAttr, CtrlCmd, GenlId, NlType, NlmF, Rtm, MAX_NL_LENGTH};
use neli::err::{DeError, NlError, Nlmsgerr};
use neli::genl::Genlmsghdr;
use neli::nl::{Nlmsghdr, Wire};
use neli::nlattr::Nlattr;
use neli::socket::{NlMessageIter, NlSocket};
use neli::sys::{SysCall, SysReply};

fn socket() -> NlSocket {
    NlSocket { fd: 7, order: ByteOrder::native(), buffer: None, pid: None, seq: None }
}

fn wire<T: NlType, P: Wire>(msg: &Nlmsghdr<T, P>) -> Vec<u8> {
    let mut vec = Vec::new();
    let mut stream = StreamWriteBuffer::new_growable_ref(&mut vec);
    msg.serialize(ByteOrder::native(), &mut stream).unwrap();
    vec
}

/// The reply to a `recv` into a buffer of the usual size.
fn received(bytes: &[u8]) -> Option<SysReply> {
    let mut mem = vec![0xeeu8; MAX_NL_LENGTH];
    mem[0..bytes.len()].copy_from_slice(bytes);
    Some(SysReply { mem, ..SysReply::returned(bytes.len() as isize) })
}

fn data(pid: u32, payload: u32) -> Nlmsghdr<Rtm, u32> {
    Nlmsghdr::new(
        None,
        Rtm::UnrecognizedVariant(100),
        vec![NlmF::Multi],
        Some(1),
        Some(pid),
        Some(payload),
    )
}

fn ack(seq: u32, pid: u32, error: i32) -> Nlmsghdr<Rtm, Nlmsgerr<Rtm>> {
    let request = Nlmsghdr::new(Some(20), Rtm::UnrecognizedVariant(16), vec![], Some(seq), None, None);
    Nlmsghdr::new(
        None,
        Rtm::Error,
        vec![],
        Some(seq),
        Some(pid),
        Some(Nlmsgerr { error, nlmsg: request }),
    )
}

#[test]
fn multi_msg_iter() {
    let order = ByteOrder::native();
    let mut vec = vec![];
    let mut stream = StreamWriteBuffer::new_growable_ref(&mut vec);

    let nl1 = Nlmsghdr::new(
        None,
        GenlId::Ctrl,
        vec![NlmF::Multi],
        None,
        None,
        Some(
            Genlmsghdr::new(
                CtrlCmd::Unspec,
                2,
                vec![
                    Nlattr::new(order, None, CtrlAttr::FamilyId, 5u32).unwrap(),
                    Nlattr::new(order, None, CtrlAttr::FamilyName, "my_family_name").unwrap(),
                ],
            )
            .unwrap(),
        ),
    );
    let nl2 = Nlmsghdr::new(
        None,
        GenlId::Ctrl,
        vec![NlmF::Multi],
        None,
        None,
        Some(
            Genlmsghdr::new(
                CtrlCmd::Unspec,
                2,
                vec![
                    Nlattr::new(order, None, CtrlAttr::FamilyId, 6u32).unwrap(),
                    Nlattr::new(order, None, CtrlAttr::FamilyName, "my_other_family_name").unwrap(),
                ],
            )
            .unwrap(),
        ),
    );

    nl1.serialize(order, &mut stream).unwrap();
    nl2.serialize(order, &mut stream).unwrap();

    let mut s = NlSocket {
        fd: -1,
        order,
        buffer: Some(StreamReadBuffer::new(vec)),
        seq: None,
        pid: None,
    };
    let mut iter = s.iter();
    assert_eq!(iter.next_call(), None);
    if let Some(Ok(nl_next)) = iter.next(None) {
        assert_eq!(nl_next, nl1);
    } else {
        panic!("Expected message not found");
    }
    if let Some(Ok(nl_next)) = iter.next(None) {
        assert_eq!(nl_next, nl2);
    } else {
        panic!("Expected message not found");
    }
    assert_eq!(
        iter.next_call(),
        Some(SysCall::Recv { fd: -1, len: MAX_NL_LENGTH, flags: 0 })
    );
}

#[test]
fn messages_go_on_with_what_is_received_next() {
    let mut s = socket();
    let mut iter: NlMessageIter<Rtm, u32> = NlMessageIter::new(&mut s);
    for payload in [4u32, 5] {
        assert!(iter.next_call().is_some());
        match iter.next(received(&wire(&data(3, payload)))) {
            Some(Ok(msg)) => assert_eq!(msg, data(3, payload)),
            _ => panic!("no message"),
        }
    }
    assert!(matches!(
        iter.next(Some(SysReply::returned(-1))),
        Some(Err(NlError::Io(_)))
    ));
}

#[test]
fn sending_numbers_requests() {
    let mut s = socket();
    s.pid = Some(77);
    s.seq = Some(0);
    for seq in 1..=2 {
        let mut expected = data(77, 9);
        expected.nl_seq = seq;
        let call = s.send_nl(data(0, 9)).unwrap();
        assert_eq!(call, SysCall::Send { fd: 7, buf: wire(&expected), flags: 0 });
        assert_eq!(s.seq, Some(seq));
    }
    s.increment_seq();
    assert_eq!(s.seq, Some(3));
}

#[test]
fn sending_without_id_or_numbers_changes_nothing() {
    let mut s = socket();
    let call = s.send_nl(data(12, 9)).unwrap();
    assert_eq!(call, SysCall::Send { fd: 7, buf: wire(&data(12, 9)), flags: 0 });
    assert_eq!((s.pid, s.seq), (None, None));
    s.increment_seq();
    assert_eq!(s.seq, None);
}

#[test]
fn replies_to_sending_and_receiving() {
    assert_eq!(NlSocket::send_reply(&SysReply::returned(12)).unwrap(), 12);
    assert_eq!(NlSocket::recv_reply(&SysReply::returned(0)).unwrap(), 0);
    assert!(NlSocket::send_reply(&SysReply::returned(-1)).is_err());
    assert!(NlSocket::recv_reply(&SysReply::returned(-1)).is_err());
    assert!(NlSocket::send_nl_reply(&SysReply::returned(0)).is_ok());
    assert!(matches!(
        NlSocket::send_nl_reply(&SysReply::returned(-1)),
        Err(NlError::Io(_))
    ));
    let s = socket();
    assert_eq!(s.send(vec![1, 2], 3), SysCall::Send { fd: 7, buf: vec![1, 2], flags: 3 });
    assert_eq!(s.recv(8, 4), SysCall::Recv { fd: 7, len: 8, flags: 4 });
}

#[test]
fn what_is_sent_is_received() {
    let mut from = socket();
    from.pid = Some(31);
    from.seq = Some(8);
    let mut to = socket();
    match from.send_nl(data(0, 1234)).unwrap() {
        SysCall::Send { buf, .. } => {
            let msg: Nlmsghdr<Rtm, u32> = to.recv_nl(received(&buf)).unwrap();
            assert_eq!((msg.nl_pid, msg.nl_seq, msg.nl_payload), (31, 9, Some(1234)));
        }
        _ => panic!("nothing is sent"),
    }
    assert_eq!(to.pid, Some(31));
    assert!(to.buffer.is_none());
}

#[test]
fn the_size_of_a_receive_buffer() {
    let mut s = socket();
    assert_eq!(
        s.recv_nl_call(None),
        Some(SysCall::Recv { fd: 7, len: 32768, flags: 0 })
    );
    assert_eq!(
        s.recv_nl_call(Some(100)),
        Some(SysCall::Recv { fd: 7, len: 100, flags: 0 })
    );
    s.buffer = Some(StreamReadBuffer::new(wire(&data(1, 2))));
    assert_eq!(s.recv_nl_call(Some(100)), None);
    s.reset_buffer();
    assert!(s.buffer.is_none());
    assert!(s.recv_nl_call(None).is_some());
}

#[test]
fn the_first_sender_is_the_only_one() {
    let mut s = socket();
    s.seq = Some(4);
    let mut bytes = wire(&data(3, 1));
    bytes.extend(wire(&data(4, 2)));
    bytes.extend(wire(&data(3, 3)));
    assert_eq!(s.recv_nl::<Rtm, u32>(received(&bytes)).unwrap(), data(3, 1));
    assert_eq!(s.pid, Some(3));
    assert!(matches!(s.recv_nl::<Rtm, u32>(None), Err(NlError::BadPid)));
    assert_eq!(s.pid, Some(3));
    assert_eq!(s.recv_nl::<Rtm, u32>(None).unwrap(), data(3, 3));
    assert!(s.buffer.is_none());
    assert_eq!(s.seq, Some(4));
}

#[test]
fn a_refused_message_leaves_its_buffer() {
    let mut s = socket();
    s.pid = Some(9);
    assert!(matches!(
        s.recv_nl::<Rtm, u32>(received(&wire(&data(3, 1)))),
        Err(NlError::BadPid)
    ));
    assert!(s.buffer.as_ref().unwrap().at_end());
}

#[test]
fn nothing_to_receive() {
    let mut s = socket();
    match s.recv_nl::<Rtm, u32>(Some(SysReply::returned(0))) {
        Err(NlError::Msg(text)) => assert_eq!(text, "No data could be read from the socket"),
        _ => panic!("nothing was received"),
    }
    assert!(matches!(
        s.recv_nl::<Rtm, u32>(Some(SysReply::returned(-1))),
        Err(NlError::Io(_))
    ));
    assert!(s.buffer.is_none());
    assert_eq!(s.pid, None);
}

#[test]
fn a_failed_read_stays() {
    let mut s = socket();
    let mut short = data(3, 1);
    short.nl_len = 18;
    let mut bytes = wire(&short);
    bytes.extend(wire(&data(3, 2)));
    assert!(matches!(
        s.recv_nl::<Rtm, u32>(received(&bytes)),
        Err(NlError::De(DeError::UnexpectedEOB))
    ));
    assert!(matches!(
        s.recv_nl::<Rtm, u32>(None),
        Err(NlError::De(DeError::UnexpectedEOB))
    ));
    let raw: Nlmsghdr<Rtm, Vec<u8>> = s.recv_nl(None).unwrap();
    assert_eq!(raw.nl_len, 18);
    assert_eq!(s.recv_nl::<Rtm, u32>(None).unwrap(), data(3, 2));
}

#[test]
fn an_acknowledgement_is_matched_to_its_request() {
    let mut s = socket();
    s.seq = Some(41);
    s.send_nl(data(0, 1)).unwrap();
    assert!(s.recv_ack(received(&wire(&ack(42, 5, 0)))).is_ok());
    assert_eq!(s.pid, Some(5));
    assert!(s.buffer.is_none());
    assert!(matches!(
        s.recv_ack(received(&wire(&ack(41, 5, 0)))),
        Err(NlError::BadSeq)
    ));
    s.seq = None;
    assert!(s.recv_ack(received(&wire(&ack(1, 5, 0)))).is_ok());
}

#[test]
fn an_error_is_no_acknowledgement() {
    let mut s = socket();
    assert!(matches!(
        s.recv_ack(received(&wire(&ack(1, 5, -22)))),
        Err(NlError::NoAck)
    ));
    assert!(s.buffer.is_none());
}

#[test]
fn an_error_without_payload_is_no_acknowledgement() {
    let mut s = socket();
    let bare: Nlmsghdr<Rtm, u32> = Nlmsghdr::new(None, Rtm::Error, vec![], None, None, None);
    assert!(matches!(s.recv_ack(received(&wire(&bare))), Err(NlError::NoAck)));
}

#[test]
fn an_acknowledgement_of_another_sender_is_none() {
    let mut s = socket();
    s.pid = Some(6);
    assert!(matches!(
        s.recv_ack(received(&wire(&ack(1, 5, 0)))),
        Err(NlError::NoAck)
    ));
    assert!(matches!(s.recv_ack(Some(SysReply::returned(-1))), Err(NlError::NoAck)));
}

#[test]
fn a_message_that_is_no_acknowledgement_stays() {
    let mut s = socket();
    let long = Nlmsghdr::new(
        None,
        Rtm::Done,
        vec![],
        None,
        Some(5),
        Some(vec![1u8; 24]),
    );
    let mut bytes = wire(&long);
    bytes.extend(wire(&ack(1, 5, 0)));
    assert!(matches!(s.recv_ack(received(&bytes)), Err(NlError::NoAck)));
    assert!(matches!(s.recv_ack(None), Err(NlError::NoAck)));
    assert_eq!(s.recv_nl::<Rtm, Vec<u8>>(None).unwrap(), long);
    assert!(s.recv_ack(None).is_ok());
    assert!(s.buffer.is_none());
}
