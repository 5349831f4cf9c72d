//! The numbers of the netlink protocol that messages and sockets are made of.

use vstd::prelude::*;

verus! {

/// The longest netlink message that the kernel supports, and so the size of a receive buffer.
pub const MAX_NL_LENGTH: usize = 32768;

/// A value that stands for a 16-bit number on the wire.
pub trait Code16: Copy {
    /// The number that the value is sent as.
    spec fn code(self) -> u16;

    /// The value that a received number stands for.
    spec fn of_code(code: u16) -> Self;

    /// The number that the value is sent as.
    fn to_u16(self) -> (code: u16)
        ensures
            code == self.code(),
    ;

    /// The value that a received number stands for.
    fn from_u16(code: u16) -> (v: Self)
        ensures
            v == Self::of_code(code),
    ;

    /// A received number is sent again as that number.
    proof fn law_code_kept(code: u16)
        ensures
            Self::of_code(code).code() == code,
    ;
}

/// A message type, which stands in the header of every message.
pub trait NlType: Code16 {

}

/// An attribute type, which stands in the header of every attribute.
pub trait NlAttrType: Code16 {

}

/// A command of generic netlink, an 8-bit number on the wire.
pub trait Cmd: Copy {
    /// The number that the command is sent as.
    spec fn code(self) -> u8;

    /// The command that a received number stands for.
    spec fn of_code(code: u8) -> Self;

    /// The number that the command is sent as.
    fn to_u8(self) -> (code: u8)
        ensures
            code == self.code(),
    ;

    /// The command that a received number stands for.
    fn from_u8(code: u8) -> (v: Self)
        ensures
            v == Self::of_code(code),
    ;

    /// A received number is sent again as that number.
    proof fn law_code_kept(code: u8)
        ensures
            Self::of_code(code).code() == code,
    ;
}

/// The message types of generic netlink that are fixed.
#[derive(Debug, Clone, Copy, PartialEq, Eq, Structural)]
pub enum GenlId {
    /// The controller, which answers questions about families.
    Ctrl,
    /// A number with no name here.
    UnrecognizedVariant(u16),
}

impl Code16 for GenlId {
    open spec fn code(self) -> u16 {
        match self {
            GenlId::Ctrl => 16,
            GenlId::UnrecognizedVariant(code) => code,
        }
    }

    open spec fn of_code(code: u16) -> GenlId {
        if code == 16 {
            GenlId::Ctrl
        } else {
            GenlId::UnrecognizedVariant(code)
        }
    }

    fn to_u16(self) -> (code: u16) {
        match self {
            GenlId::Ctrl => 16,
            GenlId::UnrecognizedVariant(code) => code,
        }
    }

    fn from_u16(code: u16) -> (v: GenlId) {
        if code == 16 {
            GenlId::Ctrl
        } else {
            GenlId::UnrecognizedVariant(code)
        }
    }

    proof fn law_code_kept(code: u16) {
    }
}

impl NlType for GenlId {

}

/// The message types that every family shares.
#[derive(Debug, Clone, Copy, PartialEq, Eq, Structural)]
pub enum Rtm {
    /// To be ignored.
    Noop,
    /// An acknowledgement or an error.
    Error,
    /// The end of a multipart message.
    Done,
    /// Data was lost.
    Overrun,
    /// A number with no name here.
    UnrecognizedVariant(u16),
}

impl Code16 for Rtm {
    open spec fn code(self) -> u16 {
        match self {
            Rtm::Noop => 1,
            Rtm::Error => 2,
            Rtm::Done => 3,
            Rtm::Overrun => 4,
            Rtm::UnrecognizedVariant(code) => code,
        }
    }

    open spec fn of_code(code: u16) -> Rtm {
        if code == 1 {
            Rtm::Noop
        } else if code == 2 {
            Rtm::Error
        } else if code == 3 {
            Rtm::Done
        } else if code == 4 {
            Rtm::Overrun
        } else {
            Rtm::UnrecognizedVariant(code)
        }
    }

    fn to_u16(self) -> (code: u16) {
        match self {
            Rtm::Noop => 1,
            Rtm::Error => 2,
            Rtm::Done => 3,
            Rtm::Overrun => 4,
            Rtm::UnrecognizedVariant(code) => code,
        }
    }

    fn from_u16(code: u16) -> (v: Rtm) {
        if code == 1 {
            Rtm::Noop
        } else if code == 2 {
            Rtm::Error
        } else if code == 3 {
            Rtm::Done
        } else if code == 4 {
            Rtm::Overrun
        } else {
            Rtm::UnrecognizedVariant(code)
        }
    }

    proof fn law_code_kept(code: u16) {
    }
}

impl NlType for Rtm {

}

/// The attributes of the generic netlink controller.
#[derive(Debug, Clone, Copy, PartialEq, Eq, Structural)]
pub enum CtrlAttr {
    /// Not specified.
    Unspec,
    /// The number of the family.
    FamilyId,
    /// The name of the family.
    FamilyName,
    /// The version of the family.
    Version,
    /// The size of the header of the family.
    Hdrsize,
    /// The highest attribute of the family.
    Maxattr,
    /// The operations of the family.
    Ops,
    /// The multicast groups of the family.
    McastGroups,
    /// A number with no name here.
    UnrecognizedVariant(u16),
}

impl Code16 for CtrlAttr {
    open spec fn code(self) -> u16 {
        match self {
            CtrlAttr::Unspec => 0,
            CtrlAttr::FamilyId => 1,
            CtrlAttr::FamilyName => 2,
            CtrlAttr::Version => 3,
            CtrlAttr::Hdrsize => 4,
            CtrlAttr::Maxattr => 5,
            CtrlAttr::Ops => 6,
            CtrlAttr::McastGroups => 7,
            CtrlAttr::UnrecognizedVariant(code) => code,
        }
    }

    open spec fn of_code(code: u16) -> CtrlAttr {
        if code == 0 {
            CtrlAttr::Unspec
        } else if code == 1 {
            CtrlAttr::FamilyId
        } else if code == 2 {
            CtrlAttr::FamilyName
        } else if code == 3 {
            CtrlAttr::Version
        } else if code == 4 {
            CtrlAttr::Hdrsize
        } else if code == 5 {
            CtrlAttr::Maxattr
        } else if code == 6 {
            CtrlAttr::Ops
        } else if code == 7 {
            CtrlAttr::McastGroups
        } else {
            CtrlAttr::UnrecognizedVariant(code)
        }
    }

    fn to_u16(self) -> (code: u16) {
        match self {
            CtrlAttr::Unspec => 0,
            CtrlAttr::FamilyId => 1,
            CtrlAttr::FamilyName => 2,
            CtrlAttr::Version => 3,
            CtrlAttr::Hdrsize => 4,
            CtrlAttr::Maxattr => 5,
            CtrlAttr::Ops => 6,
            CtrlAttr::McastGroups => 7,
            CtrlAttr::UnrecognizedVariant(code) => code,
        }
    }

    fn from_u16(code: u16) -> (v: CtrlAttr) {
        if code == 0 {
            CtrlAttr::Unspec
        } else if code == 1 {
            CtrlAttr::FamilyId
        } else if code == 2 {
            CtrlAttr::FamilyName
        } else if code == 3 {
            CtrlAttr::Version
        } else if code == 4 {
            CtrlAttr::Hdrsize
        } else if code == 5 {
            CtrlAttr::Maxattr
        } else if code == 6 {
            CtrlAttr::Ops
        } else if code == 7 {
            CtrlAttr::McastGroups
        } else {
            CtrlAttr::UnrecognizedVariant(code)
        }
    }

    proof fn law_code_kept(code: u16) {
    }
}

impl NlAttrType for CtrlAttr {

}

/// The attributes of a multicast group.
#[derive(Debug, Clone, Copy, PartialEq, Eq, Structural)]
pub enum CtrlAttrMcastGrp {
    /// Not specified.
    Unspec,
    /// The name of the group.
    Name,
    /// The number of the group.
    Id,
    /// A number with no name here.
    UnrecognizedVariant(u16),
}

impl Code16 for CtrlAttrMcastGrp {
    open spec fn code(self) -> u16 {
        match self {
            CtrlAttrMcastGrp::Unspec => 0,
            CtrlAttrMcastGrp::Name => 1,
            CtrlAttrMcastGrp::Id => 2,
            CtrlAttrMcastGrp::UnrecognizedVariant(code) => code,
        }
    }

    open spec fn of_code(code: u16) -> CtrlAttrMcastGrp {
        if code == 0 {
            CtrlAttrMcastGrp::Unspec
        } else if code == 1 {
            CtrlAttrMcastGrp::Name
        } else if code == 2 {
            CtrlAttrMcastGrp::Id
        } else {
            CtrlAttrMcastGrp::UnrecognizedVariant(code)
        }
    }

    fn to_u16(self) -> (code: u16) {
        match self {
            CtrlAttrMcastGrp::Unspec => 0,
            CtrlAttrMcastGrp::Name => 1,
            CtrlAttrMcastGrp::Id => 2,
            CtrlAttrMcastGrp::UnrecognizedVariant(code) => code,
        }
    }

    fn from_u16(code: u16) -> (v: CtrlAttrMcastGrp) {
        if code == 0 {
            CtrlAttrMcastGrp::Unspec
        } else if code == 1 {
            CtrlAttrMcastGrp::Name
        } else if code == 2 {
            CtrlAttrMcastGrp::Id
        } else {
            CtrlAttrMcastGrp::UnrecognizedVariant(code)
        }
    }

    proof fn law_code_kept(code: u16) {
    }
}

impl NlAttrType for CtrlAttrMcastGrp {

}

/// The commands of the generic netlink controller.
#[derive(Debug, Clone, Copy, PartialEq, Eq, Structural)]
pub enum CtrlCmd {
    /// Not specified.
    Unspec,
    /// A family was added.
    Newfamily,
    /// A family was removed.
    Delfamily,
    /// Asks for a family.
    Getfamily,
    /// Operations were added.
    Newops,
    /// Operations were removed.
    Delops,
    /// Asks for operations.
    Getops,
    /// A multicast group was added.
    NewmcastGrp,
    /// A multicast group was removed.
    DelmcastGrp,
    /// Asks for a multicast group.
    GetmcastGrp,
    /// A number with no name here.
    UnrecognizedVariant(u8),
}

impl Cmd for CtrlCmd {
    open spec fn code(self) -> u8 {
        match self {
            CtrlCmd::Unspec => 0,
            CtrlCmd::Newfamily => 1,
            CtrlCmd::Delfamily => 2,
            CtrlCmd::Getfamily => 3,
            CtrlCmd::Newops => 4,
            CtrlCmd::Delops => 5,
            CtrlCmd::Getops => 6,
            CtrlCmd::NewmcastGrp => 7,
            CtrlCmd::DelmcastGrp => 8,
            CtrlCmd::GetmcastGrp => 9,
            CtrlCmd::UnrecognizedVariant(code) => code,
        }
    }

    open spec fn of_code(code: u8) -> CtrlCmd {
        if code == 0 {
            CtrlCmd::Unspec
        } else if code == 1 {
            CtrlCmd::Newfamily
        } else if code == 2 {
            CtrlCmd::Delfamily
        } else if code == 3 {
            CtrlCmd::Getfamily
        } else if code == 4 {
            CtrlCmd::Newops
        } else if code == 5 {
            CtrlCmd::Delops
        } else if code == 6 {
            CtrlCmd::Getops
        } else if code == 7 {
            CtrlCmd::NewmcastGrp
        } else if code == 8 {
            CtrlCmd::DelmcastGrp
        } else if code == 9 {
            CtrlCmd::GetmcastGrp
        } else {
            CtrlCmd::UnrecognizedVariant(code)
        }
    }

    fn to_u8(self) -> (code: u8) {
        match self {
            CtrlCmd::Unspec => 0,
            CtrlCmd::Newfamily => 1,
            CtrlCmd::Delfamily => 2,
            CtrlCmd::Getfamily => 3,
            CtrlCmd::Newops => 4,
            CtrlCmd::Delops => 5,
            CtrlCmd::Getops => 6,
            CtrlCmd::NewmcastGrp => 7,
            CtrlCmd::DelmcastGrp => 8,
            CtrlCmd::GetmcastGrp => 9,
            CtrlCmd::UnrecognizedVariant(code) => code,
        }
    }

    fn from_u8(code: u8) -> (v: CtrlCmd) {
        if code == 0 {
            CtrlCmd::Unspec
        } else if code == 1 {
            CtrlCmd::Newfamily
        } else if code == 2 {
            CtrlCmd::Delfamily
        } else if code == 3 {
            CtrlCmd::Getfamily
        } else if code == 4 {
            CtrlCmd::Newops
        } else if code == 5 {
            CtrlCmd::Delops
        } else if code == 6 {
            CtrlCmd::Getops
        } else if code == 7 {
            CtrlCmd::NewmcastGrp
        } else if code == 8 {
            CtrlCmd::DelmcastGrp
        } else if code == 9 {
            CtrlCmd::GetmcastGrp
        } else {
            CtrlCmd::UnrecognizedVariant(code)
        }
    }

    proof fn law_code_kept(code: u8) {
    }
}

/// The flags of a message. A number that two flags share is read as the first of them.
#[derive(Debug, Clone, Copy, PartialEq, Eq, Structural)]
pub enum NlmF {
    /// The message is a request.
    Request,
    /// The message is one of several.
    Multi,
    /// An acknowledgement is asked for.
    Ack,
    /// The request is to be echoed.
    Echo,
    /// A dump was interrupted.
    DumpIntr,
    /// A dump was filtered.
    DumpFiltered,
    /// The whole table is asked for.
    Root,
    /// All entries that match are asked for.
    Match,
    /// A snapshot is asked for.
    Atomic,
    /// The whole table is asked for, entry by entry.
    Dump,
    /// An existing entry is to be replaced.
    Replace,
    /// An existing entry is to be left alone.
    Excl,
    /// A missing entry is to be created.
    Create,
    /// The entry is to be added at the end.
    Append,
    /// A number with no name here.
    UnrecognizedVariant(u16),
}

impl Code16 for NlmF {
    open spec fn code(self) -> u16 {
        match self {
            NlmF::Request => 1,
            NlmF::Multi => 2,
            NlmF::Ack => 4,
            NlmF::Echo => 8,
            NlmF::DumpIntr => 16,
            NlmF::DumpFiltered => 32,
            NlmF::Root => 256,
            NlmF::Match => 512,
            NlmF::Atomic => 1024,
            NlmF::Dump => 768,
            NlmF::Replace => 256,
            NlmF::Excl => 512,
            NlmF::Create => 1024,
            NlmF::Append => 2048,
            NlmF::UnrecognizedVariant(code) => code,
        }
    }

    open spec fn of_code(code: u16) -> NlmF {
        if code == 1 {
            NlmF::Request
        } else if code == 2 {
            NlmF::Multi
        } else if code == 4 {
            NlmF::Ack
        } else if code == 8 {
            NlmF::Echo
        } else if code == 16 {
            NlmF::DumpIntr
        } else if code == 32 {
            NlmF::DumpFiltered
        } else if code == 256 {
            NlmF::Root
        } else if code == 512 {
            NlmF::Match
        } else if code == 1024 {
            NlmF::Atomic
        } else if code == 768 {
            NlmF::Dump
        } else if code == 2048 {
            NlmF::Append
        } else {
            NlmF::UnrecognizedVariant(code)
        }
    }

    fn to_u16(self) -> (code: u16) {
        match self {
            NlmF::Request => 1,
            NlmF::Multi => 2,
            NlmF::Ack => 4,
            NlmF::Echo => 8,
            NlmF::DumpIntr => 16,
            NlmF::DumpFiltered => 32,
            NlmF::Root => 256,
            NlmF::Match => 512,
            NlmF::Atomic => 1024,
            NlmF::Dump => 768,
            NlmF::Replace => 256,
            NlmF::Excl => 512,
            NlmF::Create => 1024,
            NlmF::Append => 2048,
            NlmF::UnrecognizedVariant(code) => code,
        }
    }

    fn from_u16(code: u16) -> (v: NlmF) {
        if code == 1 {
            NlmF::Request
        } else if code == 2 {
            NlmF::Multi
        } else if code == 4 {
            NlmF::Ack
        } else if code == 8 {
            NlmF::Echo
        } else if code == 16 {
            NlmF::DumpIntr
        } else if code == 32 {
            NlmF::DumpFiltered
        } else if code == 256 {
            NlmF::Root
        } else if code == 512 {
            NlmF::Match
        } else if code == 1024 {
            NlmF::Atomic
        } else if code == 768 {
            NlmF::Dump
        } else if code == 2048 {
            NlmF::Append
        } else {
            NlmF::UnrecognizedVariant(code)
        }
    }

    proof fn law_code_kept(code: u16) {
    }
}

/// The families of netlink, one of which a socket is opened for.
#[derive(Debug, Clone, Copy, PartialEq, Eq, Structural)]
pub enum NlFamily {
    /// Routing and links.
    Route,
    /// Not used.
    Unused,
    /// Left to user space.
    Usersock,
    /// The former firewall interface.
    Firewall,
    /// Socket monitoring.
    SockOrInetDiag,
    /// The former netfilter log.
    Nflog,
    /// IPsec.
    Xfrm,
    /// Events of SELinux.
    Selinux,
    /// Open-iSCSI.
    Iscsi,
    /// Auditing.
    Audit,
    /// Lookups in the routing table.
    FibLookup,
    /// The kernel connector.
    Connector,
    /// Netfilter.
    Netfilter,
    /// The former IPv6 firewall interface.
    Ip6Fw,
    /// DECnet routing.
    Dnrtmsg,
    /// Events of kernel objects.
    KobjectUevent,
    /// Generic netlink.
    Generic,
    /// SCSI transports.
    Scsitransport,
    /// eCryptfs.
    Ecryptfs,
    /// RDMA.
    Rdma,
    /// The crypto interface of the kernel.
    Crypto,
}

impl NlFamily {
    /// The protocol number that the family has for the `socket` call.
    pub open spec fn protocol(self) -> i32 {
        match self {
            NlFamily::Route => 0,
            NlFamily::Unused => 1,
            NlFamily::Usersock => 2,
            NlFamily::Firewall => 3,
            NlFamily::SockOrInetDiag => 4,
            NlFamily::Nflog => 5,
            NlFamily::Xfrm => 6,
            NlFamily::Selinux => 7,
            NlFamily::Iscsi => 8,
            NlFamily::Audit => 9,
            NlFamily::FibLookup => 10,
            NlFamily::Connector => 11,
            NlFamily::Netfilter => 12,
            NlFamily::Ip6Fw => 13,
            NlFamily::Dnrtmsg => 14,
            NlFamily::KobjectUevent => 15,
            NlFamily::Generic => 16,
            NlFamily::Scsitransport => 18,
            NlFamily::Ecryptfs => 19,
            NlFamily::Rdma => 20,
            NlFamily::Crypto => 21,
        }
    }

    /// The protocol number that the family has for the `socket` call.
    pub fn to_i32(self) -> (protocol: i32)
        ensures
            protocol == self.protocol(),
    {
        match self {
            NlFamily::Route => 0,
            NlFamily::Unused => 1,
            NlFamily::Usersock => 2,
            NlFamily::Firewall => 3,
            NlFamily::SockOrInetDiag => 4,
            NlFamily::Nflog => 5,
            NlFamily::Xfrm => 6,
            NlFamily::Selinux => 7,
            NlFamily::Iscsi => 8,
            NlFamily::Audit => 9,
            NlFamily::FibLookup => 10,
            NlFamily::Connector => 11,
            NlFamily::Netfilter => 12,
            NlFamily::Ip6Fw => 13,
            NlFamily::Dnrtmsg => 14,
            NlFamily::KobjectUevent => 15,
            NlFamily::Generic => 16,
            NlFamily::Scsitransport => 18,
            NlFamily::Ecryptfs => 19,
            NlFamily::Rdma => 20,
            NlFamily::Crypto => 21,
        }
    }
}

} // verus!
