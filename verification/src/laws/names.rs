//! What asking the generic netlink controller for the numbers behind names sends, receives and finds.
//!
//! Each law speaks of whatever the operation returns: `call_ensures` says that a call of the
//! operation with those arguments may return that result.

use crate::bytes::{u16_of, ByteOrder};
use crate::consts::{
    Code16, CtrlAttr, CtrlAttrMcastGrp, CtrlCmd, GenlId, NlAttrType, NlmF,
};
use crate::err::{DeError, NlError, SerError};
use crate::genl::{Genlmsghdr, GenlmsghdrView};
use crate::laws::exchange::same_buffer;
use crate::laws::format::{law_attr_found, law_text_payloads};
use crate::nl::{msg_wire, Nl, NlmsghdrView};
use crate::nlattr::{attr_wire, find_attr, read_attrs, NlattrView};
use crate::payload::text_wire;
use crate::resolve::{first_group, group_id, CtrlMsg, FamilyState};
use crate::socket::NlSocket;
use crate::sys::{Step, SysCall, SysReply};
use vstd::prelude::*;
use vstd::utf8::encode_utf8;

verus! {

/// Asking for a family sends a request with its name, the ID of the socket where it has one and the
/// next number where requests are numbered, and waits for that to be sent. A name that an attribute
/// cannot hold is refused, and nothing changes.
pub proof fn law_family_requested<T: NlAttrType>(
    s: &mut NlSocket,
    name: &str,
    r: Result<(FamilyState<T>, SysCall), NlError>,
)
    requires
        call_ensures(NlSocket::get_genl_family::<T>, (s, name), r),
        old(s).seq == Some(u32::MAX) ==> encode_utf8(name@).len() + 5 > 65535,
    ensures
        r is Ok <==> encode_utf8(name@).len() + 5 <= 65535,
        r is Err ==> (r matches Err(NlError::Ser(SerError::TooLong))) && final(s)@ == old(s)@,
        r is Ok ==> {
            let seq = if old(s).seq is Some {
                (old(s).seq->0 + 1) as u32
            } else {
                0
            };
            let attr = NlattrView {
                nla_len: (encode_utf8(name@).len() + 5) as u16,
                nla_type: CtrlAttr::FamilyName,
                payload: encode_utf8(name@).push(0),
            };
            let m = NlmsghdrView {
                nl_len: (20 + attr_wire(attr, old(s).order).len()) as u32,
                nl_type: GenlId::Ctrl,
                nl_flags: seq![NlmF::Request, NlmF::Ack],
                nl_seq: seq,
                nl_pid: if old(s).pid is Some {
                    old(s).pid->0
                } else {
                    0
                },
                nl_payload: Some(GenlmsghdrView { cmd: CtrlCmd::Getfamily, version: 2, attrs: seq![attr] }),
            };
            &&& r matches Ok((FamilyState::Sent, SysCall::Send { fd, buf, flags })) && fd == old(s).fd && flags == 0
                && buf@ == msg_wire::<GenlId, Genlmsghdr<CtrlCmd, CtrlAttr>>(m, old(s).order)
            &&& final(s).seq == (if old(s).seq is Some {
                Some(seq)
            } else {
                None
            })
        },
        final(s).fd == old(s).fd,
        final(s).order == old(s).order,
        final(s).pid == old(s).pid,
        same_buffer(*final(s), *old(s)),
{
    law_text_payloads(old(s).order, name@, Seq::empty());
    assert(text_wire(name@) =~= encode_utf8(name@).push(0));
}

/// Where the request could not be sent, asking ends. Where it was sent and nothing is buffered, the
/// answer is received next. Neither changes the socket.
pub proof fn law_family_sent<T: NlAttrType>(
    s: &mut NlSocket,
    reply: SysReply,
    r: Step<FamilyState<T>, Result<CtrlMsg<T>, NlError>>,
)
    requires
        call_ensures(NlSocket::get_genl_family_step::<T>, (s, FamilyState::Sent, reply), r),
        reply.ret < 0 || old(s).buffer is None,
    ensures
        final(s)@ == old(s)@,
        reply.ret < 0 ==> (r matches Step::Done(Err(NlError::Io(_)))),
        reply.ret >= 0 ==> (r matches Step::Call(FamilyState::Receive, SysCall::Recv { fd, len, flags }) && fd
            == old(s).fd && len == 32768 && flags == 0),
{
}

/// Whether asking ends with `msg` where an acknowledgement was received, and else with the failure to
/// receive one.
pub open spec fn ends_as<T>(
    r: Step<FamilyState<T>, Result<CtrlMsg<T>, NlError>>,
    msg: CtrlMsg<T>,
    ack: Result<(), NlError>,
) -> bool {
    match ack {
        Ok(_) => r matches Step::Done(Ok(answer)) && answer@ == msg@,
        Err(e) => r matches Step::Done(Err(x)) && x@ == e@,
    }
}

/// Asking receives the acknowledgement behind the answer as receiving one by itself does, and ends.
pub proof fn law_family_acknowledged<T: NlAttrType>(
    s: &mut NlSocket,
    msg: CtrlMsg<T>,
    reply: SysReply,
    r: Step<FamilyState<T>, Result<CtrlMsg<T>, NlError>>,
    t: &mut NlSocket,
    ack: Result<(), NlError>,
)
    requires
        call_ensures(NlSocket::get_genl_family_step::<T>, (s, FamilyState::Ack(msg), reply), r),
        call_ensures(NlSocket::recv_ack, (t, Some(reply)), ack),
        old(s)@ == old(t)@,
    ensures
        final(s)@ == final(t)@,
        ends_as(r, msg, ack),
{
}

/// Asking receives the answer as receiving a message by itself does, from what is buffered once the
/// request is sent or from what was received, and ends where that fails. Where nothing is left behind
/// the answer, the acknowledgement is to be received. Where something is, it is taken from there.
pub proof fn law_family_received<T: NlAttrType>(
    s: &mut NlSocket,
    state: FamilyState<T>,
    reply: SysReply,
    r: Step<FamilyState<T>, Result<CtrlMsg<T>, NlError>>,
    t: &mut NlSocket,
    received: Option<SysReply>,
    answer: Result<CtrlMsg<T>, NlError>,
    t2: &mut NlSocket,
    ack: Result<(), NlError>,
)
    requires
        call_ensures(NlSocket::get_genl_family_step::<T>, (s, state, reply), r),
        (state is Receive && received == Some(reply)) || (state is Sent && reply.ret >= 0 && old(s).buffer is Some
            && received is None),
        call_ensures(NlSocket::recv_nl::<GenlId, Genlmsghdr<CtrlCmd, T>>, (t, received), answer),
        old(s)@ == old(t)@,
        answer is Ok && final(t).buffer is Some ==> call_ensures(NlSocket::recv_ack, (t2, None), ack) && old(t2)@
            == final(t)@,
    ensures
        answer matches Err(e) ==> (r matches Step::Done(Err(x)) && x@ == e@) && final(s)@ == final(t)@,
        answer matches Ok(msg) ==> (if final(t).buffer is None {
            &&& r matches Step::Call(FamilyState::Ack(kept), SysCall::Recv { fd, len, flags }) && kept@ == msg@ && fd
                == old(s).fd && len == 32768 && flags == 0
            &&& final(s)@ == final(t)@
        } else {
            ends_as(r, msg, ack) && final(s)@ == final(t2)@
        }),
{
}

/// A family is resolved to the number in the first attribute for it, whatever stands before or behind
/// that. An attribute too short for a number and an answer without one are failures.
pub proof fn law_family_number(s: NlSocket, answer: CtrlMsg<CtrlAttr>, r: Result<u16, NlError>)
    requires
        call_ensures(NlSocket::resolve_genl_family, (&s, &answer), r),
        answer.nl_payload is Some,
    ensures
        ({
            let attrs = answer.nl_payload->0@.attrs;
            &&& (forall|k: int| 0 <= k < attrs.len() ==> (#[trigger] attrs[k]).nla_type.code() != CtrlAttr::FamilyId.code())
                ==> (r matches Err(NlError::De(DeError::NoAttribute)))
            &&& forall|i: int|
                0 <= i < attrs.len() && (#[trigger] attrs[i]).nla_type.code() == CtrlAttr::FamilyId.code() && (forall|
                    k: int,
                |
                    0 <= k < i ==> (#[trigger] attrs[k]).nla_type.code() != CtrlAttr::FamilyId.code()) ==> (if attrs[i].payload.len()
                    < 2 {
                    r matches Err(NlError::De(DeError::UnexpectedEOB))
                } else {
                    r matches Ok(id) && id == u16_of(s.order, attrs[i].payload)
                })
        }),
{
    let attrs = answer.nl_payload->0@.attrs;
    let code = CtrlAttr::FamilyId.code();
    law_attr_found(attrs, code);
    assert forall|i: int|
        0 <= i < attrs.len() && (#[trigger] attrs[i]).nla_type.code() == code && (forall|k: int|
            0 <= k < i ==> (#[trigger] attrs[k]).nla_type.code() != code) implies find_attr(attrs, code) == Some(
        attrs[i].payload,
    ) by {
        crate::laws::lemma_found(attrs, i, code);
    }
}

/// Whether `attrs[i]` is the first of the attributes of the given type.
pub open spec fn first_of(attrs: Seq<NlattrView<CtrlAttrMcastGrp>>, i: int, ty: CtrlAttrMcastGrp) -> bool {
    &&& 0 <= i < attrs.len()
    &&& attrs[i].nla_type.code() == ty.code()
    &&& forall|k: int| 0 <= k < i ==> (#[trigger] attrs[k]).nla_type.code() != ty.code()
}

/// Whether an attribute describes a group of the given name and number: the attributes that it holds,
/// in whatever order they stand, have that name first among the names and that number first among the
/// numbers.
pub open spec fn names_group(order: ByteOrder, item: NlattrView<CtrlAttrMcastGrp>, name: Seq<char>, id: u32) -> bool {
    exists|attrs: Seq<NlattrView<CtrlAttrMcastGrp>>, i: int, j: int|
        {
            &&& read_attrs::<CtrlAttrMcastGrp>(order, item.payload) == Ok::<Seq<NlattrView<CtrlAttrMcastGrp>>, DeError>(
                attrs,
            )
            &&& #[trigger] first_of(attrs, i, CtrlAttrMcastGrp::Name)
            &&& #[trigger] first_of(attrs, j, CtrlAttrMcastGrp::Id)
            &&& String::read(order, attrs[i].payload) == Ok::<Seq<char>, DeError>(name)
            &&& u32::read(order, attrs[j].payload) == Ok::<u32, DeError>(id)
        }
}

/// The number that a group is matched with is the one that its attribute names it with.
proof fn lemma_named(order: ByteOrder, item: NlattrView<CtrlAttrMcastGrp>, name: Seq<char>, id: u32)
    ensures
        group_id(order, item, name) == Some(id) <==> names_group(order, item, name, id),
{
    let read = read_attrs::<CtrlAttrMcastGrp>(order, item.payload);
    if read is Ok {
        let attrs = read->Ok_0;
        let n = CtrlAttrMcastGrp::Name.code();
        let d = CtrlAttrMcastGrp::Id.code();
        law_attr_found(attrs, n);
        law_attr_found(attrs, d);
        if group_id(order, item, name) == Some(id) {
            let i = choose|i: int|
                {
                    &&& 0 <= i < attrs.len()
                    &&& (#[trigger] attrs[i]).nla_type.code() == n
                    &&& attrs[i].payload == find_attr(attrs, n)->0
                    &&& forall|k: int| 0 <= k < i ==> (#[trigger] attrs[k]).nla_type.code() != n
                };
            let j = choose|j: int|
                {
                    &&& 0 <= j < attrs.len()
                    &&& (#[trigger] attrs[j]).nla_type.code() == d
                    &&& attrs[j].payload == find_attr(attrs, d)->0
                    &&& forall|k: int| 0 <= k < j ==> (#[trigger] attrs[k]).nla_type.code() != d
                };
            assert(first_of(attrs, i, CtrlAttrMcastGrp::Name));
            assert(first_of(attrs, j, CtrlAttrMcastGrp::Id));
        }
        if names_group(order, item, name, id) {
            let (found, i, j) = choose|found: Seq<NlattrView<CtrlAttrMcastGrp>>, i: int, j: int|
                {
                    &&& read_attrs::<CtrlAttrMcastGrp>(order, item.payload) == Ok::<
                        Seq<NlattrView<CtrlAttrMcastGrp>>,
                        DeError,
                    >(found)
                    &&& #[trigger] first_of(found, i, CtrlAttrMcastGrp::Name)
                    &&& #[trigger] first_of(found, j, CtrlAttrMcastGrp::Id)
                    &&& String::read(order, found[i].payload) == Ok::<Seq<char>, DeError>(name)
                    &&& u32::read(order, found[j].payload) == Ok::<u32, DeError>(id)
                };
            crate::laws::lemma_found(attrs, i, n);
            crate::laws::lemma_found(attrs, j, d);
        }
    }
}

/// A group that is named with no number is not matched.
proof fn lemma_not_named(order: ByteOrder, item: NlattrView<CtrlAttrMcastGrp>, name: Seq<char>)
    requires
        forall|id: u32| !#[trigger] names_group(order, item, name, id),
    ensures
        group_id(order, item, name) is None,
{
    if group_id(order, item, name) is Some {
        lemma_named(order, item, name, group_id(order, item, name)->0);
    }
}

/// The first of the groups that is named is the one that is matched.
proof fn lemma_first_named(
    order: ByteOrder,
    items: Seq<NlattrView<CtrlAttrMcastGrp>>,
    j: int,
    name: Seq<char>,
    id: u32,
)
    requires
        0 <= j < items.len(),
        names_group(order, items[j], name, id),
        forall|k: int, n: u32| 0 <= k < j ==> !#[trigger] names_group(order, items[k], name, n),
    ensures
        first_group(order, items, name) == Some(id),
    decreases j,
{
    if j == 0 {
        lemma_named(order, items[0], name, id);
    } else {
        let rest = items.drop_first();
        assert(forall|n: u32| !#[trigger] names_group(order, items[0], name, n));
        lemma_not_named(order, items[0], name);
        assert(rest[j - 1] == items[j]);
        assert forall|k: int, n: u32| 0 <= k < j - 1 implies !#[trigger] names_group(order, rest[k], name, n) by {
            assert(rest[k] == items[k + 1]);
            assert(!names_group(order, items[k + 1], name, n));
        }
        lemma_first_named(order, rest, j - 1, name, id);
    }
}

proof fn lemma_none_named(order: ByteOrder, items: Seq<NlattrView<CtrlAttrMcastGrp>>, name: Seq<char>)
    requires
        forall|k: int, n: u32| 0 <= k < items.len() ==> !#[trigger] names_group(order, items[k], name, n),
    ensures
        first_group(order, items, name) is None,
    decreases items.len(),
{
    if items.len() > 0 {
        let rest = items.drop_first();
        assert(forall|n: u32| !#[trigger] names_group(order, items[0], name, n));
        lemma_not_named(order, items[0], name);
        assert forall|k: int, n: u32| 0 <= k < rest.len() implies !#[trigger] names_group(order, rest[k], name, n) by {
            assert(rest[k] == items[k + 1]);
            assert(!names_group(order, items[k + 1], name, n));
        }
        lemma_none_named(order, rest, name);
    }
}

/// A group is resolved to the number of the first item of the answer that describes a group of that
/// name, in whatever order the item holds the name and the number, and whatever the items before it
/// are.
pub proof fn law_group_found(
    s: NlSocket,
    answer: CtrlMsg<CtrlAttr>,
    name: &str,
    r: Result<u32, NlError>,
    i: int,
    items: Seq<NlattrView<CtrlAttrMcastGrp>>,
    j: int,
    id: u32,
)
    requires
        call_ensures(NlSocket::resolve_nl_mcast_group, (&s, &answer, name), r),
        answer.nl_payload is Some,
        0 <= i < answer.nl_payload->0@.attrs.len(),
        answer.nl_payload->0@.attrs[i].nla_type.code() == CtrlAttr::McastGroups.code(),
        forall|k: int|
            0 <= k < i ==> (#[trigger] answer.nl_payload->0@.attrs[k]).nla_type.code()
                != CtrlAttr::McastGroups.code(),
        read_attrs::<CtrlAttrMcastGrp>(s.order, answer.nl_payload->0@.attrs[i].payload) == Ok::<
            Seq<NlattrView<CtrlAttrMcastGrp>>,
            DeError,
        >(items),
        0 <= j < items.len(),
        names_group(s.order, items[j], name@, id),
        forall|k: int, n: u32| 0 <= k < j ==> !#[trigger] names_group(s.order, items[k], name@, n),
    ensures
        r matches Ok(found) && found == id,
{
    crate::laws::lemma_found(answer.nl_payload->0@.attrs, i, CtrlAttr::McastGroups.code());
    lemma_first_named(s.order, items, j, name@, id);
}

/// A name that no item of the answer describes a group with is not resolved. An answer without groups,
/// and one whose groups cannot be read, are failures of their own.
pub proof fn law_group_not_found(s: NlSocket, answer: CtrlMsg<CtrlAttr>, name: &str, r: Result<u32, NlError>, i: int)
    requires
        call_ensures(NlSocket::resolve_nl_mcast_group, (&s, &answer, name), r),
        answer.nl_payload is Some,
        0 <= i <= answer.nl_payload->0@.attrs.len(),
        i < answer.nl_payload->0@.attrs.len() ==> answer.nl_payload->0@.attrs[i].nla_type.code()
            == CtrlAttr::McastGroups.code(),
        forall|k: int|
            0 <= k < i ==> (#[trigger] answer.nl_payload->0@.attrs[k]).nla_type.code()
                != CtrlAttr::McastGroups.code(),
    ensures
        i == answer.nl_payload->0@.attrs.len() ==> (r matches Err(NlError::De(DeError::NoAttribute))),
        i < answer.nl_payload->0@.attrs.len() ==> (match read_attrs::<CtrlAttrMcastGrp>(
            s.order,
            answer.nl_payload->0@.attrs[i].payload,
        ) {
            Err(e) => r matches Err(NlError::De(x)) && x == e,
            Ok(items) => (forall|k: int, n: u32|
                0 <= k < items.len() ==> !#[trigger] names_group(s.order, items[k], name@, n)) ==> (r matches Err(
                NlError::Msg(text),
            ) && text@ == "Failed to resolve multicast group ID"@),
        }),
{
    let attrs = answer.nl_payload->0@.attrs;
    let code = CtrlAttr::McastGroups.code();
    law_attr_found(attrs, code);
    if i < attrs.len() {
        crate::laws::lemma_found(attrs, i, code);
        let read = read_attrs::<CtrlAttrMcastGrp>(s.order, attrs[i].payload);
        if read is Ok {
            let items = read->Ok_0;
            if forall|k: int, n: u32|
                0 <= k < items.len() ==> !#[trigger] names_group(s.order, items[k], name@, n) {
                lemma_none_named(s.order, items, name@);
            }
        }
    }
}

} // verus!
