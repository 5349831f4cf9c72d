//! The generic netlink message, which stands as the payload of a netlink message.

use crate::bytes::ByteOrder;
use crate::consts::{Cmd, NlAttrType};
use crate::err::{DeError, SerError};
use crate::nl::{Nl, Wire};
use crate::nlattr::{
    attrs_kept, attrs_len, attrs_view, attrs_wire, law_attrs_round_trip, lemma_attrs_wire_len,
    parse_attrs, push_attrs, read_attrs, size_attrs, AttrHandle, Nlattr, NlattrView,
};
use vstd::prelude::*;
use vstd::slice::slice_subrange;

verus! {

/// The size of the header of a generic netlink message.
pub const GENL_HDRLEN: usize = 4;

/// A generic netlink message with commands of type `C` and attributes of type `T`.
#[derive(Debug, PartialEq, Eq)]
pub struct Genlmsghdr<C, T> {
    /// The command.
    pub cmd: C,
    /// The version of the family that the message is for.
    pub version: u8,
    /// The attributes.
    pub attrs: Vec<Nlattr<T>>,
}

/// What a generic netlink message stands for.
#[verifier::ext_equal]
pub struct GenlmsghdrView<C, T> {
    pub cmd: C,
    pub version: u8,
    pub attrs: Seq<NlattrView<T>>,
}

impl<C, T> View for Genlmsghdr<C, T> {
    type V = GenlmsghdrView<C, T>;

    open spec fn view(&self) -> GenlmsghdrView<C, T> {
        GenlmsghdrView { cmd: self.cmd, version: self.version, attrs: attrs_view(self.attrs@) }
    }
}

impl<C: Cmd, T: NlAttrType> Genlmsghdr<C, T> {
    /// A generic netlink message.
    pub fn new(cmd: C, version: u8, attrs: Vec<Nlattr<T>>) -> (r: Result<Self, SerError>)
        ensures
            r matches Ok(m) && m.cmd == cmd && m.version == version && m.attrs == attrs,
    {
        Ok(Genlmsghdr { cmd, version, attrs })
    }

    /// The attributes, to look values up in.
    pub fn get_attr_handle(&self) -> (handle: AttrHandle<'_, T>)
        ensures
            handle@ == self@.attrs,
    {
        AttrHandle::Borrowed(&self.attrs)
    }
}

impl<C: Cmd, T: NlAttrType> Wire for Genlmsghdr<C, T> {
    /// The command, the version, two reserved bytes, and the attributes.
    open spec fn wire(v: GenlmsghdrView<C, T>, order: ByteOrder) -> Seq<u8> {
        seq![v.cmd.code(), v.version, 0u8, 0u8] + attrs_wire(v.attrs, order)
    }

    open spec fn wire_len(v: GenlmsghdrView<C, T>) -> nat {
        GENL_HDRLEN as nat + attrs_len(v.attrs)
    }

    proof fn law_wire_len(v: GenlmsghdrView<C, T>, order: ByteOrder) {
        lemma_attrs_wire_len(v.attrs, order);
    }

    fn size(&self) -> (r: usize) {
        GENL_HDRLEN + size_attrs(&self.attrs)
    }

    fn push_wire(&self, order: ByteOrder, out: &mut Vec<u8>) {
        out.push(self.cmd.to_u8());
        out.push(self.version);
        out.push(0);
        out.push(0);
        assert(out@ =~= old(out)@ + seq![self.cmd.code(), self.version, 0u8, 0u8]);
        push_attrs(order, &self.attrs, out);
        assert(out@ =~= old(out)@ + Self::wire(self@, order));
    }
}

impl<C: Cmd, T: NlAttrType> Nl for Genlmsghdr<C, T> {
    /// The reserved bytes are not looked at.
    open spec fn read(order: ByteOrder, bytes: Seq<u8>) -> Result<GenlmsghdrView<C, T>, DeError> {
        if bytes.len() < GENL_HDRLEN {
            Err(DeError::UnexpectedEOB)
        } else {
            match read_attrs::<T>(order, bytes.skip(GENL_HDRLEN as int)) {
                Ok(attrs) => Ok(GenlmsghdrView { cmd: C::of_code(bytes[0]), version: bytes[1], attrs }),
                Err(e) => Err(e),
            }
        }
    }

    open spec fn kept(v: GenlmsghdrView<C, T>) -> bool {
        C::of_code(v.cmd.code()) == v.cmd && attrs_kept(v.attrs)
    }

    fn deserialize(order: ByteOrder, bytes: &[u8]) -> (r: Result<Self, DeError>) {
        if bytes.len() < GENL_HDRLEN {
            return Err(DeError::UnexpectedEOB);
        }
        assert(bytes@.subrange(4, bytes@.len() as int) =~= bytes@.skip(4));
        match parse_attrs(order, slice_subrange(bytes, GENL_HDRLEN, bytes.len())) {
            Ok(attrs) => Ok(Genlmsghdr { cmd: C::from_u8(bytes[0]), version: bytes[1], attrs }),
            Err(e) => Err(e),
        }
    }

    #[verifier::rlimit(40)]
    proof fn law_round_trip(v: GenlmsghdrView<C, T>, order: ByteOrder) {
        let bytes = Self::wire(v, order);
        law_attrs_round_trip(v.attrs, order);
        assert(bytes.skip(4) =~= attrs_wire(v.attrs, order));
        assert(bytes[0] == v.cmd.code());
        assert(bytes[1] == v.version);
    }
}

} // verus!
