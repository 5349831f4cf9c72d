use buffering::copy::{StreamReadBuffer, StreamWriteBuffer};
use neli::bytes::ByteOrder;
use neli::consts::{Code16, Cmd, CtrlAttr, CtrlAttrMcastGrp, CtrlCmd, GenlId, NlType, NlmF, Rtm};
use neli::err::{DeError, Nlmsgerr, SerError};
use neli::genl::Genlmsghdr;
use neli::nl::{Nl, Nlmsghdr, Wire};
use neli::nlattr::{parse_attrs, size_attrs, Nlattr};

const LITTLE: ByteOrder = ByteOrder::Little;
const BIG: ByteOrder = ByteOrder::Big;

fn wire<T: NlType, P: Wire>(msg: &Nlmsghdr<T, P>, order: ByteOrder) -> Vec<u8> {
    let mut vec = Vec::new();
    let mut stream = StreamWriteBuffer::new_growable_ref(&mut vec);
    msg.serialize(order, &mut stream).unwrap();
    vec
}

fn read<T: NlType, P: Nl>(bytes: &[u8], order: ByteOrder) -> Result<Nlmsghdr<T, P>, DeError> {
    Nlmsghdr::deserialize(order, &mut StreamReadBuffer::new(bytes.to_vec()))
}

fn sample() -> Nlmsghdr<Rtm, Vec<u8>> {
    Nlmsghdr::new(
        None,
        Rtm::Done,
        vec![NlmF::Request, NlmF::Ack],
        Some(0x0102_0304),
        Some(0x0a0b_0c0d),
        Some(vec![9, 8, 7]),
    )
}

#[test]
fn a_message_on_a_little_endian_wire() {
    let expected = vec![
        19, 0, 0, 0, 3, 0, 5, 0, 4, 3, 2, 1, 0x0d, 0x0c, 0x0b, 0x0a, 9, 8, 7, 0,
    ];
    assert_eq!(wire(&sample(), LITTLE), expected);
    assert_eq!(read::<Rtm, Vec<u8>>(&expected, LITTLE).unwrap(), sample());
}

#[test]
fn a_message_on_a_big_endian_wire() {
    let expected = vec![
        0, 0, 0, 19, 0, 3, 0, 5, 1, 2, 3, 4, 0x0a, 0x0b, 0x0c, 0x0d, 9, 8, 7, 0,
    ];
    assert_eq!(wire(&sample(), BIG), expected);
    assert_eq!(read::<Rtm, Vec<u8>>(&expected, BIG).unwrap(), sample());
}

#[test]
fn the_order_of_the_machine() {
    let order = ByteOrder::native();
    assert_eq!(wire(&sample(), order)[0..4], 19u32.to_ne_bytes());
    assert_eq!(wire(&sample(), order)[8..12], 0x0102_0304u32.to_ne_bytes());
}

#[test]
fn the_order_that_reads_a_one() {
    assert_eq!(ByteOrder::that_reads(u16::from_le_bytes([1, 0])), LITTLE);
    assert_eq!(ByteOrder::that_reads(u16::from_be_bytes([1, 0])), BIG);
    assert_eq!(ByteOrder::native(), ByteOrder::that_reads(u16::from_ne_bytes([1, 0])));
}

#[test]
fn the_size_of_a_message() {
    assert_eq!(sample().nl_len, 19);
    assert_eq!(sample().size(), 19);
    assert_eq!(sample().asize(), 20);
    let bare: Nlmsghdr<Rtm, Vec<u8>> = Nlmsghdr::new(None, Rtm::Noop, vec![], None, None, None);
    assert_eq!((bare.nl_len, bare.size(), bare.asize()), (16, 16, 16));
    assert_eq!((bare.nl_seq, bare.nl_pid), (0, 0));
    let given: Nlmsghdr<Rtm, u32> = Nlmsghdr::new(Some(77), Rtm::Noop, vec![], None, None, Some(1));
    assert_eq!((given.nl_len, given.size()), (77, 20));
}

#[test]
fn a_message_without_payload() {
    let bare: Nlmsghdr<Rtm, Vec<u8>> = Nlmsghdr::new(None, Rtm::Noop, vec![], None, None, None);
    let bytes = wire(&bare, LITTLE);
    assert_eq!(bytes, vec![16, 0, 0, 0, 1, 0, 0, 0, 0, 0, 0, 0, 0, 0, 0, 0]);
    assert_eq!(read::<Rtm, Vec<u8>>(&bytes, LITTLE).unwrap(), bare);
    let empty: Nlmsghdr<Rtm, Vec<u8>> = Nlmsghdr::new(None, Rtm::Noop, vec![], None, None, Some(vec![]));
    assert_eq!(read::<Rtm, Vec<u8>>(&wire(&empty, LITTLE), LITTLE).unwrap().nl_payload, None);
}

#[test]
fn padding_at_the_end_may_be_missing() {
    let bytes = wire(&sample(), LITTLE);
    assert_eq!(read::<Rtm, Vec<u8>>(&bytes[0..19], LITTLE).unwrap(), sample());
}

#[test]
fn bytes_that_are_no_message() {
    let bytes = wire(&sample(), LITTLE);
    assert_eq!(read::<Rtm, Vec<u8>>(&[], LITTLE), Err(DeError::UnexpectedEOB));
    assert_eq!(read::<Rtm, Vec<u8>>(&bytes[0..15], LITTLE), Err(DeError::UnexpectedEOB));
    assert_eq!(read::<Rtm, Vec<u8>>(&bytes[0..18], LITTLE), Err(DeError::UnexpectedEOB));
    let mut short = bytes.clone();
    short[0] = 15;
    assert_eq!(read::<Rtm, Vec<u8>>(&short, LITTLE), Err(DeError::BadLength));
    assert_eq!(read::<Rtm, u32>(&bytes, LITTLE), Err(DeError::UnexpectedEOB));
}

#[test]
fn a_stream_stands_behind_the_message_that_was_read() {
    let mut bytes = wire(&sample(), LITTLE);
    bytes.extend(wire(&sample(), LITTLE));
    bytes.extend([1, 2, 3]);
    let mut stream = StreamReadBuffer::new(bytes);
    let first: Nlmsghdr<Rtm, Vec<u8>> = Nlmsghdr::deserialize(LITTLE, &mut stream).unwrap();
    assert_eq!(first, sample());
    stream.rewind();
    let again: Nlmsghdr<Rtm, Vec<u8>> = Nlmsghdr::deserialize(LITTLE, &mut stream).unwrap();
    assert_eq!(again, sample());
    let second: Nlmsghdr<Rtm, Vec<u8>> = Nlmsghdr::deserialize(LITTLE, &mut stream).unwrap();
    assert_eq!(second, sample());
    assert!(!stream.at_end());
    let third: Result<Nlmsghdr<Rtm, Vec<u8>>, DeError> = Nlmsghdr::deserialize(LITTLE, &mut stream);
    assert_eq!(third, Err(DeError::UnexpectedEOB));
    assert!(!stream.at_end());
}

#[test]
fn messages_are_written_one_behind_the_other() {
    let mut stream = StreamWriteBuffer::new_growable(Some(1));
    sample().serialize(LITTLE, &mut stream).unwrap();
    sample().serialize(BIG, &mut stream).unwrap();
    let mut expected = wire(&sample(), LITTLE);
    expected.extend(wire(&sample(), BIG));
    assert_eq!(stream.as_ref(), expected.as_slice());
}

#[test]
fn flags_are_read_in_the_order_of_their_bits() {
    let mut msg = sample();
    msg.nl_flags = vec![NlmF::Ack, NlmF::Request, NlmF::Ack];
    let bytes = wire(&msg, LITTLE);
    assert_eq!(bytes[6], 5);
    let back: Nlmsghdr<Rtm, Vec<u8>> = read(&bytes, LITTLE).unwrap();
    assert_eq!(back.nl_flags, vec![NlmF::Request, NlmF::Ack]);
}

#[test]
fn the_bits_of_the_flags_are_kept() {
    let mut bytes = wire(&sample(), LITTLE);
    for bits in 0..=u16::MAX {
        bytes[6..8].copy_from_slice(&bits.to_le_bytes());
        let msg: Nlmsghdr<Rtm, Vec<u8>> = read(&bytes, LITTLE).unwrap();
        assert_eq!(msg.nl_flags.len() as u32, bits.count_ones());
        assert_eq!(wire(&msg, LITTLE), bytes);
    }
}

#[test]
fn an_unknown_number_is_kept() {
    assert_eq!(Rtm::from_u16(999), Rtm::UnrecognizedVariant(999));
    assert_eq!(Rtm::UnrecognizedVariant(999).to_u16(), 999);
    assert_eq!(GenlId::from_u16(16), GenlId::Ctrl);
    assert_eq!(GenlId::from_u16(17), GenlId::UnrecognizedVariant(17));
    assert_eq!(CtrlCmd::from_u8(3), CtrlCmd::Getfamily);
    assert_eq!(CtrlCmd::Getfamily.to_u8(), 3);
    assert_eq!(CtrlAttr::from_u16(7), CtrlAttr::McastGroups);
    assert_eq!(CtrlAttrMcastGrp::from_u16(2), CtrlAttrMcastGrp::Id);
    for code in 0..=u16::MAX {
        assert_eq!(Rtm::from_u16(code).to_u16(), code);
        assert_eq!(NlmF::from_u16(code).to_u16(), code);
        assert_eq!(CtrlAttr::from_u16(code).to_u16(), code);
    }
}

#[test]
fn the_numbers_of_the_flags() {
    assert_eq!(NlmF::Request.to_u16() as i32, libc::NLM_F_REQUEST);
    assert_eq!(NlmF::Multi.to_u16() as i32, libc::NLM_F_MULTI);
    assert_eq!(NlmF::Ack.to_u16() as i32, libc::NLM_F_ACK);
    assert_eq!(NlmF::Echo.to_u16() as i32, libc::NLM_F_ECHO);
    assert_eq!(Rtm::Noop.to_u16() as i32, libc::NLMSG_NOOP);
    assert_eq!(Rtm::Error.to_u16() as i32, libc::NLMSG_ERROR);
    assert_eq!(Rtm::Done.to_u16() as i32, libc::NLMSG_DONE);
    assert_eq!(Rtm::Overrun.to_u16() as i32, libc::NLMSG_OVERRUN);
    assert_eq!(GenlId::Ctrl.to_u16() as i32, libc::GENL_ID_CTRL);
    assert_eq!(CtrlCmd::Getfamily.to_u8() as i32, libc::CTRL_CMD_GETFAMILY);
    assert_eq!(CtrlAttr::FamilyId.to_u16() as i32, libc::CTRL_ATTR_FAMILY_ID);
    assert_eq!(CtrlAttr::FamilyName.to_u16() as i32, libc::CTRL_ATTR_FAMILY_NAME);
    assert_eq!(CtrlAttr::McastGroups.to_u16() as i32, libc::CTRL_ATTR_MCAST_GROUPS);
    assert_eq!(CtrlAttrMcastGrp::Name.to_u16() as i32, libc::CTRL_ATTR_MCAST_GRP_NAME);
    assert_eq!(CtrlAttrMcastGrp::Id.to_u16() as i32, libc::CTRL_ATTR_MCAST_GRP_ID);
}

#[test]
fn an_attribute_on_the_wire() {
    let attrs = vec![
        Nlattr::new(LITTLE, None, CtrlAttr::FamilyName, "abc").unwrap(),
        Nlattr::new(LITTLE, None, CtrlAttr::FamilyId, 0x0102u16).unwrap(),
    ];
    assert_eq!(attrs[0].nla_len, 8);
    assert_eq!(attrs[0].payload, vec![97, 98, 99, 0]);
    let msg = Genlmsghdr::new(CtrlCmd::Getfamily, 2, attrs).unwrap();
    let mut bytes = Vec::new();
    msg.push_wire(LITTLE, &mut bytes);
    assert_eq!(
        bytes,
        vec![3, 2, 0, 0, 8, 0, 2, 0, 97, 98, 99, 0, 6, 0, 1, 0, 2, 1, 0, 0]
    );
    assert_eq!(msg.size(), 20);
    assert_eq!(size_attrs(&msg.attrs), 16);
    assert_eq!(
        <Genlmsghdr<CtrlCmd, CtrlAttr> as Nl>::deserialize(LITTLE, &bytes).unwrap(),
        msg
    );
    assert_eq!(
        <Genlmsghdr<CtrlCmd, CtrlAttr> as Nl>::deserialize(LITTLE, &bytes[0..18]).unwrap(),
        msg
    );
    assert_eq!(
        <Genlmsghdr<CtrlCmd, CtrlAttr> as Nl>::deserialize(LITTLE, &bytes[0..3]),
        Err(DeError::UnexpectedEOB)
    );
}

#[test]
fn values_are_looked_up_in_attributes() {
    let attrs = vec![
        Nlattr::new(BIG, None, CtrlAttr::FamilyId, 5u16).unwrap(),
        Nlattr::new(BIG, None, CtrlAttr::FamilyId, 6u16).unwrap(),
        Nlattr::new(BIG, None, CtrlAttr::FamilyName, "name").unwrap(),
        Nlattr::new(BIG, Some(99), CtrlAttr::Version, 1u32).unwrap(),
    ];
    let msg = Genlmsghdr::new(CtrlCmd::Newfamily, 1, attrs).unwrap();
    let handle = msg.get_attr_handle();
    assert_eq!(handle.get_attribute(CtrlAttr::Version).unwrap().nla_len, 99);
    assert_eq!(handle.get_attr_payload_as::<u16>(BIG, CtrlAttr::FamilyId), Ok(5));
    assert_eq!(handle.get_attr_payload_as::<u16>(LITTLE, CtrlAttr::FamilyId), Ok(0x0500));
    assert_eq!(
        handle.get_attr_payload_as::<String>(BIG, CtrlAttr::FamilyName),
        Ok("name".to_string())
    );
    assert_eq!(
        handle.get_attr_payload_as::<u32>(BIG, CtrlAttr::FamilyId),
        Err(DeError::UnexpectedEOB)
    );
    assert_eq!(
        handle.get_attr_payload_as::<u32>(BIG, CtrlAttr::Maxattr),
        Err(DeError::NoAttribute)
    );
    assert!(handle.get_nested_attributes::<CtrlAttrMcastGrp>(BIG, CtrlAttr::Ops).is_err());
}

#[test]
fn bytes_that_are_no_attributes() {
    assert_eq!(parse_attrs::<CtrlAttr>(LITTLE, &[]), Ok(vec![]));
    assert_eq!(parse_attrs::<CtrlAttr>(LITTLE, &[4, 0]), Err(DeError::UnexpectedEOB));
    assert_eq!(parse_attrs::<CtrlAttr>(LITTLE, &[3, 0, 1, 0]), Err(DeError::BadLength));
    assert_eq!(parse_attrs::<CtrlAttr>(LITTLE, &[8, 0, 1, 0, 9]), Err(DeError::UnexpectedEOB));
}

#[test]
fn strings_end_in_a_zero_byte() {
    assert_eq!(String::deserialize(LITTLE, &[104, 105, 0]), Ok("hi".to_string()));
    assert_eq!(String::deserialize(LITTLE, &[104, 105]), Ok("hi".to_string()));
    assert_eq!(String::deserialize(LITTLE, &[]), Ok(String::new()));
    assert_eq!(String::deserialize(LITTLE, &[0xff, 0xfe, 0]), Err(DeError::BadString));
    let mut bytes = Vec::new();
    "h\u{e9}".push_wire(LITTLE, &mut bytes);
    assert_eq!(bytes, vec![104, 0xc3, 0xa9, 0]);
    assert_eq!("h\u{e9}".size(), 4);
    assert_eq!(String::deserialize(BIG, &bytes), Ok("h\u{e9}".to_string()));
    assert_eq!("h\u{e9}".to_string().size(), 4);
}

#[test]
fn integers_as_payloads() {
    assert_eq!(u16::deserialize(LITTLE, &[1, 2]), Ok(0x0201));
    assert_eq!(u16::deserialize(BIG, &[1, 2, 3]), Ok(0x0102));
    assert_eq!(u16::deserialize(BIG, &[1]), Err(DeError::UnexpectedEOB));
    assert_eq!(u32::deserialize(LITTLE, &[1, 2, 3, 4]), Ok(0x0403_0201));
    assert_eq!(u32::deserialize(BIG, &[1, 2, 3, 4]), Ok(0x0102_0304));
    assert_eq!(u32::deserialize(BIG, &[1, 2, 3]), Err(DeError::UnexpectedEOB));
}

#[test]
fn a_value_that_is_too_long_for_an_attribute() {
    let longest = vec![7u8; 65531];
    let attr = Nlattr::new(LITTLE, None, CtrlAttr::Ops, longest).unwrap();
    assert_eq!(attr.nla_len, 65535);
    let too_long = vec![7u8; 65532];
    assert_eq!(
        Nlattr::new(LITTLE, None, CtrlAttr::Ops, too_long),
        Err(SerError::TooLong)
    );
    let given = vec![7u8; 65532];
    assert_eq!(Nlattr::new(LITTLE, Some(4), CtrlAttr::Ops, given).unwrap().nla_len, 4);
}

#[test]
fn an_error_message_is_read_back() {
    let msg = Nlmsgerr {
        error: -22,
        nlmsg: Nlmsghdr::new(
            Some(40),
            Rtm::UnrecognizedVariant(30),
            vec![NlmF::Request],
            Some(3),
            Some(4),
            Some(vec![1, 2, 3, 4]),
        ),
    };
    let mut bytes = Vec::new();
    msg.push_wire(LITTLE, &mut bytes);
    assert_eq!(
        bytes,
        vec![
            0xea, 0xff, 0xff, 0xff, 40, 0, 0, 0, 30, 0, 1, 0, 3, 0, 0, 0, 4, 0, 0, 0, 1, 2, 3, 4
        ]
    );
    assert_eq!(msg.size(), 24);
    assert_eq!(<Nlmsgerr<Rtm> as Nl>::deserialize(LITTLE, &bytes).unwrap(), msg);
    assert_eq!(
        <Nlmsgerr<Rtm> as Nl>::deserialize(LITTLE, &bytes[0..20]).unwrap().nlmsg.nl_payload,
        None
    );
    assert_eq!(
        <Nlmsgerr<Rtm> as Nl>::deserialize(LITTLE, &bytes[0..19]),
        Err(DeError::UnexpectedEOB)
    );
}
