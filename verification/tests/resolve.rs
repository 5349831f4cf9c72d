use buffering::copy::StreamWriteBuffer;
use neli::bytes::ByteOrder;
use neli::consts::{CtrlAttr, CtrlAttrMcastGrp, CtrlCmd, GenlId, NlType, Rtm, MAX_NL_LENGTH};
use neli::err::{DeError, NlError, Nlmsgerr, SerError};
use neli::genl::Genlmsghdr;
use neli::nl::{Nlmsghdr, Wire};
use neli::nlattr::{push_attrs, Nlattr};
use neli::resolve::{CtrlMsg, FamilyState};
use neli::socket::NlSocket;
use neli::sys::{Step, SysCall, SysReply};

const ORDER: ByteOrder = ByteOrder::Little;

fn socket() -> NlSocket {
    NlSocket { fd: 7, order: ORDER, buffer: None, pid: None, seq: Some(0) }
}

fn wire<T: NlType, P: Wire>(msg: &Nlmsghdr<T, P>) -> Vec<u8> {
    let mut vec = Vec::new();
    let mut stream = StreamWriteBuffer::new_growable_ref(&mut vec);
    msg.serialize(ORDER, &mut stream).unwrap();
    vec
}

fn received(bytes: &[u8]) -> SysReply {
    SysReply { mem: bytes.to_vec(), ..SysReply::returned(bytes.len() as isize) }
}

fn ack(seq: u32, error: i32) -> Nlmsghdr<Rtm, Nlmsgerr<Rtm>> {
    let request = Nlmsghdr::new(Some(32), Rtm::UnrecognizedVariant(16), vec![], Some(seq), None, None);
    Nlmsghdr::new(
        None,
        Rtm::Error,
        vec![],
        Some(seq),
        Some(5),
        Some(Nlmsgerr { error, nlmsg: request }),
    )
}

fn group(name: &str, id: u32) -> Nlattr<CtrlAttrMcastGrp> {
    let attrs = vec![
        Nlattr::new(ORDER, None, CtrlAttrMcastGrp::Name, name).unwrap(),
        Nlattr::new(ORDER, None, CtrlAttrMcastGrp::Id, id).unwrap(),
    ];
    nested(CtrlAttrMcastGrp::UnrecognizedVariant(9), &attrs)
}

fn nested<T: neli::consts::NlAttrType, S: neli::consts::NlAttrType>(ty: T, attrs: &Vec<Nlattr<S>>) -> Nlattr<T> {
    let mut bytes = Vec::new();
    push_attrs(ORDER, attrs, &mut bytes);
    Nlattr::new(ORDER, None, ty, bytes).unwrap()
}

fn answer(attrs: Vec<Nlattr<CtrlAttr>>) -> CtrlMsg<CtrlAttr> {
    Nlmsghdr::new(
        None,
        GenlId::Ctrl,
        vec![],
        Some(1),
        Some(5),
        Some(Genlmsghdr::new(CtrlCmd::Newfamily, 2, attrs).unwrap()),
    )
}

fn family() -> CtrlMsg<CtrlAttr> {
    answer(vec![
        Nlattr::new(ORDER, None, CtrlAttr::FamilyName, "nl80211").unwrap(),
        Nlattr::new(ORDER, None, CtrlAttr::FamilyId, 28u16).unwrap(),
        nested(
            CtrlAttr::McastGroups,
            &vec![group("config", 4), group("scan", 5), group("scan", 6)],
        ),
    ])
}

fn recv_call() -> SysCall {
    SysCall::Recv { fd: 7, len: MAX_NL_LENGTH, flags: 0 }
}

#[test]
fn the_request_for_a_family() {
    let mut s = socket();
    s.pid = Some(3);
    let (state, call) = s.get_genl_family::<CtrlAttr>("acpi").unwrap();
    assert!(matches!(state, FamilyState::Sent));
    assert_eq!(
        call,
        SysCall::Send {
            fd: 7,
            buf: vec![
                32, 0, 0, 0, 16, 0, 5, 0, 1, 0, 0, 0, 3, 0, 0, 0, 3, 2, 0, 0, 9, 0, 2, 0, 97, 99, 112,
                105, 0, 0, 0, 0
            ],
            flags: 0
        }
    );
    assert_eq!(s.seq, Some(1));
}

#[test]
fn a_name_that_is_too_long() {
    let mut s = socket();
    let name = "x".repeat(65531);
    assert!(matches!(
        s.get_genl_family::<CtrlAttr>(&name),
        Err(NlError::Ser(SerError::TooLong))
    ));
    assert_eq!(s.seq, Some(0));
    assert!(s.get_genl_family::<CtrlAttr>(&name[1..]).is_ok());
    assert_eq!(s.seq, Some(1));
}

#[test]
fn an_answer_and_its_acknowledgement_in_one_datagram() {
    let mut s = socket();
    let (state, _) = s.get_genl_family::<CtrlAttr>("nl80211").unwrap();
    let state = match s.get_genl_family_step(state, SysReply::returned(36)) {
        Step::Call(state, call) => {
            assert_eq!(call, recv_call());
            assert!(matches!(state, FamilyState::Receive));
            state
        }
        Step::Done(_) => panic!("the answer is still to be received"),
    };
    let mut bytes = wire(&family());
    bytes.extend(wire(&ack(1, 0)));
    match s.get_genl_family_step(state, received(&bytes)) {
        Step::Done(Ok(msg)) => assert_eq!(msg, family()),
        _ => panic!("there is an answer"),
    }
    assert_eq!(s.pid, Some(5));
    assert!(s.buffer.is_none());
}

#[test]
fn an_answer_and_its_acknowledgement_in_two_datagrams() {
    let mut s = socket();
    let (state, _) = s.get_genl_family::<CtrlAttr>("nl80211").unwrap();
    let state = match s.get_genl_family_step(state, SysReply::returned(36)) {
        Step::Call(state, _) => state,
        Step::Done(_) => panic!("the answer is still to be received"),
    };
    let state = match s.get_genl_family_step(state, received(&wire(&family()))) {
        Step::Call(state, call) => {
            assert_eq!(call, recv_call());
            assert!(matches!(state, FamilyState::Ack(_)));
            state
        }
        Step::Done(_) => panic!("the acknowledgement is still to be received"),
    };
    match s.get_genl_family_step(state, received(&wire(&ack(1, 0)))) {
        Step::Done(Ok(msg)) => assert_eq!(msg, family()),
        _ => panic!("there is an answer"),
    }
}

#[test]
fn an_answer_that_is_already_buffered() {
    let mut s = socket();
    let mut bytes = wire(&family());
    bytes.extend(wire(&ack(1, 0)));
    s.buffer = Some(buffering::copy::StreamReadBuffer::new(bytes));
    let (state, _) = s.get_genl_family::<CtrlAttr>("nl80211").unwrap();
    match s.get_genl_family_step(state, SysReply::returned(36)) {
        Step::Done(Ok(msg)) => assert_eq!(msg, family()),
        _ => panic!("there is an answer"),
    }
}

#[test]
fn a_request_that_fails() {
    let mut s = socket();
    let (state, _) = s.get_genl_family::<CtrlAttr>("nl80211").unwrap();
    assert!(matches!(
        s.get_genl_family_step(state, SysReply::returned(-1)),
        Step::Done(Err(NlError::Io(_)))
    ));
    let r = s.get_genl_family_step(FamilyState::<CtrlAttr>::Receive, SysReply::returned(-1));
    assert!(matches!(r, Step::Done(Err(NlError::Io(_)))));
    let r = s.get_genl_family_step(FamilyState::<CtrlAttr>::Receive, SysReply::returned(0));
    assert!(matches!(r, Step::Done(Err(NlError::Msg(_)))));
    let mut bytes = wire(&family());
    bytes.extend(wire(&ack(2, 0)));
    let r = s.get_genl_family_step(FamilyState::<CtrlAttr>::Receive, received(&bytes));
    assert!(matches!(r, Step::Done(Err(NlError::BadSeq))));
    let r = s.get_genl_family_step(FamilyState::Ack(family()), received(&wire(&ack(1, -1))));
    assert!(matches!(r, Step::Done(Err(NlError::NoAck))));
}

#[test]
fn a_family_is_resolved() {
    let s = socket();
    assert_eq!(s.resolve_genl_family(&family()).unwrap(), 28);
    assert!(matches!(
        s.resolve_genl_family(&answer(vec![])),
        Err(NlError::De(DeError::NoAttribute))
    ));
    let short = answer(vec![Nlattr::new(ORDER, None, CtrlAttr::FamilyId, vec![1u8]).unwrap()]);
    assert!(matches!(
        s.resolve_genl_family(&short),
        Err(NlError::De(DeError::UnexpectedEOB))
    ));
}

#[test]
fn the_first_group_of_a_name_is_resolved() {
    let s = socket();
    assert_eq!(s.resolve_nl_mcast_group(&family(), "config").unwrap(), 4);
    assert_eq!(s.resolve_nl_mcast_group(&family(), "scan").unwrap(), 5);
}

#[test]
fn a_group_that_is_not_there() {
    let s = socket();
    match s.resolve_nl_mcast_group(&family(), "vendor") {
        Err(NlError::Msg(text)) => assert_eq!(text, "Failed to resolve multicast group ID"),
        _ => panic!("there is no such group"),
    }
    assert!(matches!(
        s.resolve_nl_mcast_group(&answer(vec![]), "scan"),
        Err(NlError::De(DeError::NoAttribute))
    ));
    let broken = Nlattr::new(ORDER, None, CtrlAttr::McastGroups, vec![1u8, 0, 0, 0]).unwrap();
    assert!(matches!(
        s.resolve_nl_mcast_group(&answer(vec![broken]), "scan"),
        Err(NlError::De(DeError::BadLength))
    ));
}

#[test]
fn groups_that_cannot_be_read_are_passed_over() {
    let s = socket();
    let unreadable = Nlattr::new(ORDER, None, CtrlAttrMcastGrp::Unspec, vec![1u8, 0, 0, 0]).unwrap();
    let nameless = nested(
        CtrlAttrMcastGrp::Unspec,
        &vec![Nlattr::new(ORDER, None, CtrlAttrMcastGrp::Id, 1u32).unwrap()],
    );
    let numberless = nested(
        CtrlAttrMcastGrp::Unspec,
        &vec![Nlattr::new(ORDER, None, CtrlAttrMcastGrp::Name, "scan").unwrap()],
    );
    let ill_named = nested(
        CtrlAttrMcastGrp::Unspec,
        &vec![Nlattr::new(ORDER, None, CtrlAttrMcastGrp::Name, vec![0xffu8, 0]).unwrap()],
    );
    let groups = vec![unreadable, nameless, numberless, ill_named, group("scan", 8)];
    let msg = answer(vec![nested(CtrlAttr::McastGroups, &groups)]);
    assert_eq!(s.resolve_nl_mcast_group(&msg, "scan").unwrap(), 8);
}
