//! Asking the generic netlink controller for the numbers behind names.

use crate::bytes::ByteOrder;
use crate::consts::{
    CtrlAttr, CtrlAttrMcastGrp, CtrlCmd, GenlId, NlAttrType, NlmF, MAX_NL_LENGTH,
};
use crate::err::{NlError, NlErrorView, SerError};
use crate::genl::{Genlmsghdr, GenlmsghdrView, GENL_HDRLEN};
use crate::nl::{msg_wire, Nlmsghdr, NlmsghdrView, NLMSG_HDRLEN};
use crate::nlattr::{
    attr_len, attr_payload_as, attrs_len, attrs_view, nested_attributes, read_attrs, AttrHandle, Nlattr,
    NlattrView, NLA_HDRLEN,
};
use crate::payload::text_wire;
use crate::socket::{
    received_ack, received_nl, reply_view, result_view, sends, sent, stamped, NlSocket, SocketView,
};
use crate::sys::{Step, SysCall, SysReply};
use vstd::prelude::*;

verus! {

/// A message of the controller.
pub type CtrlMsg<T> = Nlmsghdr<GenlId, Genlmsghdr<CtrlCmd, T>>;

/// What a message of the controller stands for.
pub type CtrlMsgView<T> = NlmsghdrView<GenlId, GenlmsghdrView<CtrlCmd, T>>;

/// The attribute that names a family.
pub open spec fn family_name_attr(name: Seq<char>) -> NlattrView<CtrlAttr> {
    NlattrView {
        nla_len: (NLA_HDRLEN + text_wire(name).len()) as u16,
        nla_type: CtrlAttr::FamilyName,
        payload: text_wire(name),
    }
}

/// The message that asks for the family of the given name and for an acknowledgement.
pub open spec fn family_request(name: Seq<char>) -> CtrlMsgView<CtrlAttr> {
    NlmsghdrView {
        nl_len: (NLMSG_HDRLEN + GENL_HDRLEN + attr_len(family_name_attr(name))) as u32,
        nl_type: GenlId::Ctrl,
        nl_flags: seq![NlmF::Request, NlmF::Ack],
        nl_seq: 0,
        nl_pid: 0,
        nl_payload: Some(
            GenlmsghdrView { cmd: CtrlCmd::Getfamily, version: 2, attrs: seq![family_name_attr(name)] },
        ),
    }
}

/// Whether the name is too long for an attribute.
pub open spec fn name_too_long(name: Seq<char>) -> bool {
    NLA_HDRLEN + text_wire(name).len() > u16::MAX
}

/// What asking for a family waits for.
pub enum FamilyState<T> {
    /// That the request is sent.
    Sent,
    /// The answer.
    Receive,
    /// The acknowledgement that follows this answer.
    Ack(CtrlMsg<T>),
}

/// What asking for a family does next.
pub enum FamilyNext<T> {
    /// It sends the request.
    Send,
    /// It receives the answer.
    Receive,
    /// It receives the acknowledgement that follows this answer.
    Ack(CtrlMsgView<T>),
    /// It is done.
    Done(Result<CtrlMsgView<T>, NlErrorView>),
}

/// What a step in asking for a family stands for.
pub open spec fn family_view<T>(r: Step<FamilyState<T>, Result<CtrlMsg<T>, NlError>>) -> FamilyNext<T> {
    match r {
        Step::Call(FamilyState::Sent, _) => FamilyNext::Send,
        Step::Call(FamilyState::Receive, _) => FamilyNext::Receive,
        Step::Call(FamilyState::Ack(msg), _) => FamilyNext::Ack(msg@),
        Step::Done(done) => FamilyNext::Done(result_view(done)),
    }
}

/// The socket when the acknowledgement behind `msg` has been asked for, and what follows.
pub open spec fn family_acked<T: NlAttrType>(
    s: SocketView,
    msg: CtrlMsgView<T>,
    received: Option<(isize, Seq<u8>)>,
) -> (SocketView, FamilyNext<T>) {
    let (after, r) = received_ack(s, received);
    match r {
        Ok(()) => (after, FamilyNext::Done(Ok(msg))),
        Err(e) => (after, FamilyNext::Done(Err(e))),
    }
}

/// The socket when the answer has been received, and what follows. Where the acknowledgement came
/// with the answer it is taken at once.
pub open spec fn family_answered<T: NlAttrType>(s: SocketView, received: Option<(isize, Seq<u8>)>) -> (
    SocketView,
    FamilyNext<T>,
) {
    let (after, r) = received_nl::<GenlId, Genlmsghdr<CtrlCmd, T>>(s, received);
    match r {
        Ok(msg) => if after.buffer is None {
            (after, FamilyNext::Ack(msg))
        } else {
            family_acked(after, msg, None)
        },
        Err(e) => (after, FamilyNext::Done(Err(e))),
    }
}

/// The socket when a call has returned the reply in asking for a family, and what follows.
pub open spec fn family_next<T: NlAttrType>(s: SocketView, state: FamilyState<T>, ret: isize, mem: Seq<u8>) -> (
    SocketView,
    FamilyNext<T>,
) {
    match state {
        FamilyState::Sent => if ret < 0 {
            (s, FamilyNext::Done(Err(NlErrorView::Io)))
        } else if s.buffer is None {
            (s, FamilyNext::Receive)
        } else {
            family_answered(s, None)
        },
        FamilyState::Receive => family_answered(s, Some((ret, mem))),
        FamilyState::Ack(msg) => family_acked(s, msg@, Some((ret, mem))),
    }
}

/// The text of the failure when there is no group of the given name.
pub open spec fn no_group() -> NlErrorView {
    NlErrorView::Msg("Failed to resolve multicast group ID"@)
}

/// The number of the group that an attribute describes, where that group has the given name.
pub open spec fn group_id(order: ByteOrder, item: NlattrView<CtrlAttrMcastGrp>, name: Seq<char>) -> Option<u32> {
    match read_attrs::<CtrlAttrMcastGrp>(order, item.payload) {
        Ok(attrs) => match attr_payload_as::<CtrlAttrMcastGrp, String>(order, attrs, CtrlAttrMcastGrp::Name) {
            Ok(text) => if text == name {
                match attr_payload_as::<CtrlAttrMcastGrp, u32>(order, attrs, CtrlAttrMcastGrp::Id) {
                    Ok(id) => Some(id),
                    Err(_) => None,
                }
            } else {
                None
            },
            Err(_) => None,
        },
        Err(_) => None,
    }
}

/// The number of the first group that has the given name.
pub open spec fn first_group(order: ByteOrder, items: Seq<NlattrView<CtrlAttrMcastGrp>>, name: Seq<char>) -> Option<u32>
    decreases items.len(),
{
    if items.len() == 0 {
        None
    } else {
        match group_id(order, items[0], name) {
            Some(id) => Some(id),
            None => first_group(order, items.drop_first(), name),
        }
    }
}

/// The number of the family that the attributes of an answer describe.
pub open spec fn family_id(order: ByteOrder, attrs: Seq<NlattrView<CtrlAttr>>) -> Result<u16, NlErrorView> {
    match attr_payload_as::<CtrlAttr, u16>(order, attrs, CtrlAttr::FamilyId) {
        Ok(id) => Ok(id),
        Err(e) => Err(NlErrorView::De(e)),
    }
}

/// The number of the group of the given name in the family that the attributes of an answer
/// describe.
pub open spec fn mcast_group(order: ByteOrder, attrs: Seq<NlattrView<CtrlAttr>>, name: Seq<char>) -> Result<
    u32,
    NlErrorView,
> {
    match nested_attributes::<CtrlAttr, CtrlAttrMcastGrp>(order, attrs, CtrlAttr::McastGroups) {
        Ok(items) => match first_group(order, items, name) {
            Some(id) => Ok(id),
            None => Err(no_group()),
        },
        Err(e) => Err(NlErrorView::De(e)),
    }
}

/// The number of the group that an attribute describes, where that group has the given name.
fn match_group(order: ByteOrder, item: &Nlattr<CtrlAttrMcastGrp>, name: &String) -> (r: Option<u32>)
    ensures
        r == group_id(order, item@, name@),
{
    let nested: AttrHandle<'static, CtrlAttrMcastGrp> = match item.get_nested_attributes(order) {
        Ok(nested) => nested,
        Err(_) => {
            return None;
        },
    };
    let text: String = match nested.get_attr_payload_as::<String>(order, CtrlAttrMcastGrp::Name) {
        Ok(text) => text,
        Err(_) => {
            return None;
        },
    };
    if text == *name {
        match nested.get_attr_payload_as::<u32>(order, CtrlAttrMcastGrp::Id) {
            Ok(id) => Some(id),
            Err(_) => None,
        }
    } else {
        None
    }
}

impl NlSocket {
    /// Asks the controller for the family of the given name; [`NlSocket::get_genl_family_step`] goes
    /// on. A name that is too long for the request is refused.
    pub fn get_genl_family<T: NlAttrType>(&mut self, family_name: &str) -> (r: Result<(FamilyState<T>, SysCall), NlError>)
        requires
            old(self)@.seq == Some(u32::MAX) ==> name_too_long(family_name@),
        ensures
            match r {
                Ok((state, call)) => {
                    &&& !name_too_long(family_name@)
                    &&& final(self)@ == sent(old(self)@)
                    &&& state is Sent
                    &&& sends(
                        call,
                        old(self)@.fd,
                        msg_wire::<GenlId, Genlmsghdr<CtrlCmd, CtrlAttr>>(
                            stamped(old(self)@, family_request(family_name@)),
                            old(self)@.order,
                        ),
                        0,
                    )
                },
                Err(e) => {
                    &&& name_too_long(family_name@)
                    &&& final(self)@ == old(self)@
                    &&& e@ == NlErrorView::Ser(SerError::TooLong)
                },
            },
    {
        let attr: Nlattr<CtrlAttr> = match Nlattr::new(
            self.order,
            None,
            CtrlAttr::FamilyName,
            family_name,
        ) {
            Ok(attr) => attr,
            Err(e) => {
                return Err(NlError::Ser(e));
            },
        };
        let attrs: Vec<Nlattr<CtrlAttr>> = vec![attr];
        proof {
            let views = attrs_view(attrs@);
            assert(attr@ =~= family_name_attr(family_name@));
            assert(views =~= seq![family_name_attr(family_name@)]);
            assert(views.drop_first() =~= Seq::<NlattrView<CtrlAttr>>::empty());
            assert(attrs_len(views) == attr_len(family_name_attr(family_name@))) by {
                assert(attrs_len(views.drop_first()) == 0);
            }
        }
        let genlhdr: Genlmsghdr<CtrlCmd, CtrlAttr> = match Genlmsghdr::new(CtrlCmd::Getfamily, 2, attrs) {
            Ok(genlhdr) => genlhdr,
            Err(e) => {
                return Err(NlError::Ser(e));
            },
        };
        let flags: Vec<NlmF> = vec![NlmF::Request, NlmF::Ack];
        assert(flags@ =~= seq![NlmF::Request, NlmF::Ack]);
        let nlhdr: CtrlMsg<CtrlAttr> = Nlmsghdr::new(
            None,
            GenlId::Ctrl,
            flags,
            None,
            None,
            Some(genlhdr),
        );
        assert(nlhdr@ =~= family_request(family_name@));
        match self.send_nl(nlhdr) {
            Ok(call) => Ok((FamilyState::Sent, call)),
            Err(e) => Err(e),
        }
    }

    /// Receives the acknowledgement behind `msg`.
    fn family_ack<T: NlAttrType>(&mut self, msg: CtrlMsg<T>, received: Option<SysReply>) -> (r: Step<
        FamilyState<T>,
        Result<CtrlMsg<T>, NlError>,
    >)
        requires
            old(self)@.buffer is None ==> received is Some,
        ensures
            (final(self)@, family_view(r)) == family_acked(old(self)@, msg@, reply_view(received)),
            r is Done,
    {
        match self.recv_ack(received) {
            Ok(()) => Step::Done(Ok(msg)),
            Err(e) => Step::Done(Err(e)),
        }
    }

    /// Receives the answer.
    fn family_answer<T: NlAttrType>(&mut self, received: Option<SysReply>) -> (r: Step<
        FamilyState<T>,
        Result<CtrlMsg<T>, NlError>,
    >)
        requires
            old(self)@.buffer is None ==> received is Some,
        ensures
            (final(self)@, family_view(r)) == family_answered::<T>(old(self)@, reply_view(received)),
            r matches Step::Call(_, call) ==> call == (SysCall::Recv {
                fd: old(self)@.fd,
                len: MAX_NL_LENGTH,
                flags: 0,
            }),
    {
        match self.recv_nl::<GenlId, Genlmsghdr<CtrlCmd, T>>(received) {
            Ok(msg) => match self.recv_nl_call(None) {
                Some(call) => Step::Call(FamilyState::Ack(msg), call),
                None => self.family_ack(msg, None),
            },
            Err(e) => Step::Done(Err(e)),
        }
    }

    /// What follows in asking for a family: the answer is received, then the acknowledgement.
    pub fn get_genl_family_step<T: NlAttrType>(&mut self, state: FamilyState<T>, reply: SysReply) -> (r: Step<
        FamilyState<T>,
        Result<CtrlMsg<T>, NlError>,
    >)
        ensures
            (final(self)@, family_view(r)) == family_next(old(self)@, state, reply.ret, reply.mem@),
            r matches Step::Call(_, call) ==> call == (SysCall::Recv {
                fd: old(self)@.fd,
                len: MAX_NL_LENGTH,
                flags: 0,
            }),
    {
        match state {
            FamilyState::Sent => match Self::send_nl_reply(&reply) {
                Ok(()) => match self.recv_nl_call(None) {
                    Some(call) => Step::Call(FamilyState::Receive, call),
                    None => self.family_answer(None),
                },
                Err(e) => Step::Done(Err(e)),
            },
            FamilyState::Receive => self.family_answer(Some(reply)),
            FamilyState::Ack(msg) => self.family_ack(msg, Some(reply)),
        }
    }

    /// The number of the family that the controller answered with. The answer must carry a payload.
    pub fn resolve_genl_family(&self, answer: &CtrlMsg<CtrlAttr>) -> (r: Result<u16, NlError>)
        requires
            answer.nl_payload is Some,
        ensures
            result_view(r) == family_id(self@.order, answer.nl_payload->0@.attrs),
    {
        let payload: &Genlmsghdr<CtrlCmd, CtrlAttr> = answer.nl_payload.as_ref().unwrap();
        match payload.get_attr_handle().get_attr_payload_as::<u16>(self.order, CtrlAttr::FamilyId) {
            Ok(id) => Ok(id),
            Err(e) => Err(NlError::De(e)),
        }
    }

    /// The number of the group of the given name in the family that the controller answered with.
    /// The answer must carry a payload.
    pub fn resolve_nl_mcast_group(&self, answer: &CtrlMsg<CtrlAttr>, mcast_name: &str) -> (r: Result<u32, NlError>)
        requires
            answer.nl_payload is Some,
        ensures
            result_view(r) == mcast_group(self@.order, answer.nl_payload->0@.attrs, mcast_name@),
    {
        let order: ByteOrder = self.order;
        let payload: &Genlmsghdr<CtrlCmd, CtrlAttr> = answer.nl_payload.as_ref().unwrap();
        let groups: AttrHandle<'static, CtrlAttrMcastGrp> = match payload.get_attr_handle().get_nested_attributes(
            order,
            CtrlAttr::McastGroups,
        ) {
            Ok(groups) => groups,
            Err(e) => {
                return Err(NlError::De(e));
            },
        };
        let name: String = mcast_name.to_owned();
        let items: &Vec<Nlattr<CtrlAttrMcastGrp>> = groups.attrs();
        let ghost views = groups@;
        let mut i: usize = 0;
        assert(views.skip(0) =~= views);
        while i < items.len()
            invariant
                i <= items@.len(),
                order == self@.order,
                name@ == mcast_name@,
                views == attrs_view(items@),
                nested_attributes::<CtrlAttr, CtrlAttrMcastGrp>(
                    order,
                    answer.nl_payload->0@.attrs,
                    CtrlAttr::McastGroups,
                ) == Ok::<Seq<NlattrView<CtrlAttrMcastGrp>>, crate::err::DeError>(views),
                first_group(order, views, name@) == first_group(order, views.skip(i as int), name@),
            decreases items@.len() - i,
        {
            assert(views.skip(i as int)[0] == items@[i as int]@);
            assert(views.skip(i as int).drop_first() =~= views.skip(i + 1));
            match match_group(order, &items[i], &name) {
                Some(id) => {
                    return Ok(id);
                },
                None => {},
            }
            i = i + 1;
        }
        Err(NlError::new("Failed to resolve multicast group ID"))
    }
}

} // verus!
