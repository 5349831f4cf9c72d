//! Attributes: typed values behind a header of four bytes, which may nest.

use crate::buffer::min;
use crate::bytes::{
    align4, get_u16, law_u16_round_trip, pad_len, padding, push_padding, push_u16, u16_bytes, u16_of,
    ByteOrder,
};
use crate::consts::{Code16, NlAttrType};
use crate::err::{DeError, SerError};
use crate::nl::{Nl, Wire};
use crate::payload::{push_all, to_vec};
use vstd::prelude::*;
use vstd::slice::slice_subrange;

verus! {

/// The size of the header of an attribute.
pub const NLA_HDRLEN: usize = 4;

/// An attribute whose type is a `T`.
#[derive(Debug, PartialEq, Eq)]
pub struct Nlattr<T> {
    /// The length of the attribute in bytes, header included and padding not.
    pub nla_len: u16,
    /// The type of the attribute.
    pub nla_type: T,
    /// The bytes of the value.
    pub payload: Vec<u8>,
}

/// What an attribute stands for.
#[verifier::ext_equal]
pub struct NlattrView<T> {
    pub nla_len: u16,
    pub nla_type: T,
    pub payload: Seq<u8>,
}

impl<T> View for Nlattr<T> {
    type V = NlattrView<T>;

    open spec fn view(&self) -> NlattrView<T> {
        NlattrView { nla_len: self.nla_len, nla_type: self.nla_type, payload: self.payload@ }
    }
}

/// What a list of attributes stands for.
pub open spec fn attrs_view<T>(attrs: Seq<Nlattr<T>>) -> Seq<NlattrView<T>> {
    Seq::new(attrs.len(), |i: int| attrs[i]@)
}

/// The number of bytes that an attribute takes, padding counted.
pub open spec fn attr_len<T>(a: NlattrView<T>) -> nat {
    align4(NLA_HDRLEN as nat + a.payload.len())
}

/// An attribute on the wire: the header, the value, and padding up to a multiple of four.
pub open spec fn attr_wire<T: NlAttrType>(a: NlattrView<T>, order: ByteOrder) -> Seq<u8> {
    u16_bytes(order, a.nla_len) + u16_bytes(order, a.nla_type.code()) + a.payload + padding(
        NLA_HDRLEN as nat + a.payload.len(),
    )
}

/// The number of bytes that a list of attributes takes.
pub open spec fn attrs_len<T>(attrs: Seq<NlattrView<T>>) -> nat
    decreases attrs.len(),
{
    if attrs.len() == 0 {
        0
    } else {
        attr_len(attrs[0]) + attrs_len(attrs.drop_first())
    }
}

/// A list of attributes on the wire, one behind the other.
pub open spec fn attrs_wire<T: NlAttrType>(attrs: Seq<NlattrView<T>>, order: ByteOrder) -> Seq<u8>
    decreases attrs.len(),
{
    if attrs.len() == 0 {
        Seq::empty()
    } else {
        attr_wire(attrs[0], order) + attrs_wire(attrs.drop_first(), order)
    }
}

/// The attributes that bytes stand for. Padding behind the last one may be missing.
pub open spec fn read_attrs<T: NlAttrType>(order: ByteOrder, bytes: Seq<u8>) -> Result<Seq<NlattrView<T>>, DeError>
    decreases bytes.len(),
{
    let len = u16_of(order, bytes) as nat;
    if bytes.len() == 0 {
        Ok(Seq::empty())
    } else if bytes.len() < NLA_HDRLEN {
        Err(DeError::UnexpectedEOB)
    } else if len < NLA_HDRLEN {
        Err(DeError::BadLength)
    } else if bytes.len() < len {
        Err(DeError::UnexpectedEOB)
    } else {
        let first = NlattrView {
            nla_len: len as u16,
            nla_type: T::of_code(u16_of(order, bytes.skip(2))),
            payload: bytes.subrange(NLA_HDRLEN as int, len as int),
        };
        match read_attrs::<T>(order, bytes.skip(min(align4(len), bytes.len()) as int)) {
            Ok(rest) => Ok(seq![first] + rest),
            Err(e) => Err(e),
        }
    }
}

/// Whether reading the attribute back gives the attribute itself.
pub open spec fn attr_kept<T: NlAttrType>(a: NlattrView<T>) -> bool {
    &&& a.nla_len == NLA_HDRLEN + a.payload.len()
    &&& T::of_code(a.nla_type.code()) == a.nla_type
}

/// Whether reading the attributes back gives the attributes themselves.
pub open spec fn attrs_kept<T: NlAttrType>(attrs: Seq<NlattrView<T>>) -> bool {
    forall|i: int| 0 <= i < attrs.len() ==> attr_kept(#[trigger] attrs[i])
}

/// A list of attributes takes what its attributes take.
pub proof fn lemma_attrs_wire_len<T: NlAttrType>(attrs: Seq<NlattrView<T>>, order: ByteOrder)
    ensures
        attrs_wire(attrs, order).len() == attrs_len(attrs),
    decreases attrs.len(),
{
    if attrs.len() > 0 {
        lemma_attrs_wire_len(attrs.drop_first(), order);
    }
}

/// An attribute at the start of the bytes is read back, whatever follows it.
proof fn lemma_attr_read_back<T: NlAttrType>(a: NlattrView<T>, order: ByteOrder, rest: Seq<u8>)
    requires
        attr_kept(a),
    ensures
        ({
            let bytes = attr_wire(a, order) + rest;
            let len = NLA_HDRLEN + a.payload.len();
            &&& len <= align4(len as nat) <= bytes.len()
            &&& u16_of(order, bytes) == len
            &&& T::of_code(u16_of(order, bytes.skip(2))) == a.nla_type
            &&& bytes.subrange(NLA_HDRLEN as int, len) == a.payload
            &&& bytes.skip(align4(len as nat) as int) == rest
        }),
{
    let bytes = attr_wire(a, order) + rest;
    let len = NLA_HDRLEN as nat + a.payload.len();
    let head = u16_bytes(order, a.nla_len);
    let code = u16_bytes(order, a.nla_type.code());
    let tail = a.payload + padding(len) + rest;
    assert(bytes =~= head + (code + tail));
    law_u16_round_trip(order, a.nla_len, code + tail);
    assert(bytes.skip(2) =~= code + tail);
    law_u16_round_trip(order, a.nla_type.code(), tail);
    assert(bytes.subrange(4, len as int) =~= a.payload);
    assert(bytes.skip(align4(len) as int) =~= rest);
}

/// Bytes that start with an attribute stand for that attribute and what the others stand for.
proof fn lemma_read_first<T: NlAttrType>(
    order: ByteOrder,
    bytes: Seq<u8>,
    a: NlattrView<T>,
    tail: Seq<NlattrView<T>>,
)
    requires
        a.nla_len == NLA_HDRLEN + a.payload.len(),
        a.nla_len <= align4(a.nla_len as nat) <= bytes.len(),
        u16_of(order, bytes) == a.nla_len,
        T::of_code(u16_of(order, bytes.skip(2))) == a.nla_type,
        bytes.subrange(NLA_HDRLEN as int, a.nla_len as int) == a.payload,
        read_attrs::<T>(order, bytes.skip(align4(a.nla_len as nat) as int)) == Ok::<Seq<NlattrView<T>>, DeError>(
            tail,
        ),
    ensures
        read_attrs::<T>(order, bytes) == Ok::<Seq<NlattrView<T>>, DeError>(seq![a] + tail),
{
}

/// Attributes that were written are read back, in their order.
pub proof fn law_attrs_round_trip<T: NlAttrType>(attrs: Seq<NlattrView<T>>, order: ByteOrder)
    requires
        attrs_kept(attrs),
    ensures
        read_attrs::<T>(order, attrs_wire(attrs, order)) == Ok::<Seq<NlattrView<T>>, DeError>(attrs),
    decreases attrs.len(),
{
    if attrs.len() > 0 {
        let a = attrs[0];
        let tail = attrs.drop_first();
        assert(attr_kept(a));
        assert forall|i: int| 0 <= i < tail.len() implies attr_kept(#[trigger] tail[i]) by {
            assert(tail[i] == attrs[i + 1]);
        }
        law_attrs_round_trip(tail, order);
        lemma_attr_read_back(a, order, attrs_wire(tail, order));
        lemma_read_first(order, attrs_wire(attrs, order), a, tail);
        assert(seq![a] + tail =~= attrs);
    } else {
        assert(attrs =~= Seq::<NlattrView<T>>::empty());
    }
}

impl<T: NlAttrType> Nlattr<T> {
    /// An attribute with the given value. Where no length is given, it is the one that the attribute
    /// has; a value that is too long for the length field is refused.
    pub fn new<P: Wire>(order: ByteOrder, nla_len: Option<u16>, nla_type: T, payload: P) -> (r: Result<Self, SerError>)
        ensures
            match r {
                Ok(a) => {
                    &&& a.nla_len == (match nla_len {
                        Some(len) => len as int,
                        None => NLA_HDRLEN + P::wire_len(payload@),
                    })
                    &&& a.nla_type == nla_type
                    &&& a.payload@ == P::wire(payload@, order)
                },
                Err(e) => e == SerError::TooLong && nla_len is None && NLA_HDRLEN + P::wire_len(payload@)
                    > u16::MAX,
            },
    {
        let mut bytes: Vec<u8> = Vec::new();
        payload.push_wire(order, &mut bytes);
        assert(bytes@ =~= P::wire(payload@, order));
        proof {
            P::law_wire_len(payload@, order);
        }
        let nla_len: u16 = match nla_len {
            Some(len) => len,
            None => {
                if bytes.len() > 65535 - NLA_HDRLEN {
                    return Err(SerError::TooLong);
                }
                (NLA_HDRLEN + bytes.len()) as u16
            },
        };
        Ok(Nlattr { nla_len, nla_type, payload: bytes })
    }

    /// The attributes that the value of this one holds.
    pub fn get_nested_attributes<S: NlAttrType>(&self, order: ByteOrder) -> (r: Result<AttrHandle<'static, S>, DeError>)
        ensures
            match r {
                Ok(handle) => read_attrs::<S>(order, self.payload@) == Ok::<Seq<NlattrView<S>>, DeError>(
                    handle@,
                ),
                Err(e) => read_attrs::<S>(order, self.payload@) == Err::<Seq<NlattrView<S>>, DeError>(e),
            },
    {
        match parse_attrs(order, self.payload.as_slice()) {
            Ok(attrs) => Ok(AttrHandle::Owned(attrs)),
            Err(e) => Err(e),
        }
    }
}

/// Reads the attributes that bytes stand for.
pub fn parse_attrs<T: NlAttrType>(order: ByteOrder, bytes: &[u8]) -> (r: Result<Vec<Nlattr<T>>, DeError>)
    ensures
        match r {
            Ok(attrs) => read_attrs::<T>(order, bytes@) == Ok::<Seq<NlattrView<T>>, DeError>(
                attrs_view(attrs@),
            ),
            Err(e) => read_attrs::<T>(order, bytes@) == Err::<Seq<NlattrView<T>>, DeError>(e),
        },
{
    let total: usize = bytes.len();
    let mut attrs: Vec<Nlattr<T>> = Vec::new();
    let mut at: usize = 0;
    assert(bytes@.skip(0) =~= bytes@);
    assert(attrs_view(attrs@) =~= Seq::<NlattrView<T>>::empty());
    proof {
        lemma_prepend::<T>(Seq::empty(), read_attrs::<T>(order, bytes@));
    }
    while at < total
        invariant
            at <= total,
            total == bytes@.len(),
            read_attrs::<T>(order, bytes@) == prepend(
                attrs_view(attrs@),
                read_attrs::<T>(order, bytes@.skip(at as int)),
            ),
        decreases total - at,
    {
        let ghost rest = bytes@.skip(at as int);
        if total - at < NLA_HDRLEN {
            return Err(DeError::UnexpectedEOB);
        }
        let nla_len: u16 = get_u16(order, bytes, at);
        let len: usize = nla_len as usize;
        if len < NLA_HDRLEN {
            return Err(DeError::BadLength);
        }
        if total - at < len {
            return Err(DeError::UnexpectedEOB);
        }
        let nla_type: T = T::from_u16(get_u16(order, bytes, at + 2));
        let payload: Vec<u8> = to_vec(slice_subrange(bytes, at + NLA_HDRLEN, at + len));
        let pad: usize = pad_len(len);
        let taken: usize = if total - at - len < pad {
            total - at
        } else {
            len + pad
        };
        let ghost before = attrs_view(attrs@);
        let attr: Nlattr<T> = Nlattr { nla_len, nla_type, payload };
        let ghost first = attr@;
        attrs.push(attr);
        proof {
            assert(rest.skip(2) =~= bytes@.skip(at + 2));
            assert(rest.subrange(4, len as int) =~= bytes@.subrange(at + 4, at + len));
            assert(rest.skip(taken as int) =~= bytes@.skip(at + taken));
            assert(attrs_view(attrs@) =~= before.push(first));
            let after = read_attrs::<T>(order, bytes@.skip(at + taken));
            lemma_prepend_twice(before, first, after);
        }
        at = at + taken;
    }
    proof {
        assert(attrs_view(attrs@) + Seq::<NlattrView<T>>::empty() =~= attrs_view(attrs@));
        assert(bytes@.skip(at as int).len() == 0);
    }
    Ok(attrs)
}

/// The list `first` followed by the one that was read, if one was.
spec fn prepend<T>(first: Seq<NlattrView<T>>, read: Result<Seq<NlattrView<T>>, DeError>) -> Result<
    Seq<NlattrView<T>>,
    DeError,
> {
    match read {
        Ok(rest) => Ok(first + rest),
        Err(e) => Err(e),
    }
}

proof fn lemma_prepend<T>(first: Seq<NlattrView<T>>, read: Result<Seq<NlattrView<T>>, DeError>)
    requires
        first.len() == 0,
    ensures
        prepend(first, read) == read,
{
    if read is Ok {
        assert(first + read->Ok_0 =~= read->Ok_0);
    }
}

proof fn lemma_prepend_twice<T>(
    before: Seq<NlattrView<T>>,
    first: NlattrView<T>,
    read: Result<Seq<NlattrView<T>>, DeError>,
)
    ensures
        prepend(before, prepend(seq![first], read)) == prepend(before.push(first), read),
{
    if read is Ok {
        assert(before + (seq![first] + read->Ok_0) =~= before.push(first) + read->Ok_0);
    }
}

/// The number of bytes that a list of attributes takes.
pub fn size_attrs<T: NlAttrType>(attrs: &Vec<Nlattr<T>>) -> (r: usize)
    requires
        attrs_len(attrs_view(attrs@)) <= usize::MAX,
    ensures
        r == attrs_len(attrs_view(attrs@)),
{
    let ghost views = attrs_view(attrs@);
    let mut total: usize = 0;
    let mut i: usize = 0;
    assert(views.skip(0) =~= views);
    while i < attrs.len()
        invariant
            i <= attrs@.len(),
            views == attrs_view(attrs@),
            attrs_len(views) <= usize::MAX,
            total + attrs_len(views.skip(i as int)) == attrs_len(views),
        decreases attrs@.len() - i,
    {
        assert(views.skip(i as int)[0] == attrs@[i as int]@);
        assert(views.skip(i as int).drop_first() =~= views.skip(i + 1));
        let len: usize = NLA_HDRLEN + attrs[i].payload.len();
        total = total + (len + pad_len(len));
        i = i + 1;
    }
    total
}

/// Appends the bytes of a list of attributes.
pub fn push_attrs<T: NlAttrType>(order: ByteOrder, attrs: &Vec<Nlattr<T>>, out: &mut Vec<u8>)
    ensures
        final(out)@ == old(out)@ + attrs_wire(attrs_view(attrs@), order),
{
    let ghost views = attrs_view(attrs@);
    let mut i: usize = 0;
    assert(views.skip(0) =~= views);
    while i < attrs.len()
        invariant
            i <= attrs@.len(),
            views == attrs_view(attrs@),
            out@ + attrs_wire(views.skip(i as int), order) == old(out)@ + attrs_wire(views, order),
        decreases attrs@.len() - i,
    {
        let ghost before = out@;
        let ghost rest = attrs_wire(views.skip(i + 1), order);
        let attr: &Nlattr<T> = &attrs[i];
        assert(views.skip(i as int)[0] == attr@);
        assert(views.skip(i as int).drop_first() =~= views.skip(i + 1));
        push_u16(order, attr.nla_len, out);
        push_u16(order, attr.nla_type.to_u16(), out);
        push_all(attr.payload.as_slice(), out);
        push_padding(attr.payload.len(), out);
        assert(padding(attr.payload@.len()) =~= padding(NLA_HDRLEN as nat + attr.payload@.len()));
        assert(out@ =~= before + attr_wire(attr@, order));
        assert(out@ + rest =~= before + (attr_wire(attr@, order) + rest));
        i = i + 1;
    }
    assert(attrs_wire(views.skip(i as int), order) =~= Seq::<u8>::empty());
    assert(out@ + Seq::<u8>::empty() =~= out@);
}

/// The value of the first attribute whose type has the given number.
pub open spec fn find_attr<T: NlAttrType>(attrs: Seq<NlattrView<T>>, code: u16) -> Option<Seq<u8>>
    decreases attrs.len(),
{
    if attrs.len() == 0 {
        None
    } else if attrs[0].nla_type.code() == code {
        Some(attrs[0].payload)
    } else {
        find_attr(attrs.drop_first(), code)
    }
}

/// Whether `a` is the first of the attributes whose type has the given number.
pub open spec fn is_first_attr<T: NlAttrType>(a: NlattrView<T>, attrs: Seq<NlattrView<T>>, code: u16) -> bool {
    exists|i: int|
        {
            &&& 0 <= i < attrs.len()
            &&& a == #[trigger] attrs[i]
            &&& a.nla_type.code() == code
            &&& forall|k: int| 0 <= k < i ==> (#[trigger] attrs[k]).nla_type.code() != code
        }
}

/// The value of the first attribute of type `attr`, read as an `R`.
pub open spec fn attr_payload_as<T: NlAttrType, R: Nl>(order: ByteOrder, attrs: Seq<NlattrView<T>>, attr: T) -> Result<
    R::V,
    DeError,
> {
    match find_attr(attrs, attr.code()) {
        Some(payload) => R::read(order, payload),
        None => Err(DeError::NoAttribute),
    }
}

/// The value of the first attribute of type `attr`, read as a list of attributes.
pub open spec fn nested_attributes<T: NlAttrType, S: NlAttrType>(
    order: ByteOrder,
    attrs: Seq<NlattrView<T>>,
    attr: T,
) -> Result<Seq<NlattrView<S>>, DeError> {
    match find_attr(attrs, attr.code()) {
        Some(payload) => read_attrs::<S>(order, payload),
        None => Err(DeError::NoAttribute),
    }
}

/// Attributes to look values up in.
pub enum AttrHandle<'a, T> {
    /// Attributes of its own.
    Owned(Vec<Nlattr<T>>),
    /// The attributes of a message.
    Borrowed(&'a Vec<Nlattr<T>>),
}

impl<'a, T> View for AttrHandle<'a, T> {
    type V = Seq<NlattrView<T>>;

    open spec fn view(&self) -> Seq<NlattrView<T>> {
        match self {
            AttrHandle::Owned(attrs) => attrs_view(attrs@),
            AttrHandle::Borrowed(attrs) => attrs_view(attrs@),
        }
    }
}

impl<'a, T: NlAttrType> AttrHandle<'a, T> {
    /// The attributes themselves.
    pub fn attrs(&self) -> (r: &Vec<Nlattr<T>>)
        ensures
            attrs_view(r@) == self@,
    {
        match self {
            AttrHandle::Owned(attrs) => attrs,
            AttrHandle::Borrowed(attrs) => *attrs,
        }
    }

    /// The first attribute of type `attr`.
    pub fn get_attribute(&self, attr: T) -> (r: Option<&Nlattr<T>>)
        ensures
            match r {
                Some(a) => is_first_attr(a@, self@, attr.code()) && find_attr(self@, attr.code()) == Some(
                    a.payload@,
                ),
                None => find_attr(self@, attr.code()) is None,
            },
    {
        let attrs: &Vec<Nlattr<T>> = self.attrs();
        let code: u16 = attr.to_u16();
        let ghost views = self@;
        let mut i: usize = 0;
        assert(views.skip(0) =~= views);
        while i < attrs.len()
            invariant
                i <= attrs@.len(),
                views == attrs_view(attrs@),
                views == self@,
                code == attr.code(),
                forall|k: int| 0 <= k < i ==> (#[trigger] views[k]).nla_type.code() != code,
                find_attr(views, code) == find_attr(views.skip(i as int), code),
            decreases attrs@.len() - i,
        {
            assert(views.skip(i as int)[0] == attrs@[i as int]@);
            assert(views.skip(i as int).drop_first() =~= views.skip(i + 1));
            assert(views[i as int] == attrs@[i as int]@);
            if attrs[i].nla_type.to_u16() == code {
                return Some(&attrs[i]);
            }
            i = i + 1;
        }
        None
    }

    /// The value of the first attribute of type `attr`, read as an `R`.
    pub fn get_attr_payload_as<R: Nl>(&self, order: ByteOrder, attr: T) -> (r: Result<R, DeError>)
        ensures
            match r {
                Ok(x) => attr_payload_as::<T, R>(order, self@, attr) == Ok::<R::V, DeError>(x@),
                Err(e) => attr_payload_as::<T, R>(order, self@, attr) == Err::<R::V, DeError>(e),
            },
    {
        match self.get_attribute(attr) {
            Some(a) => R::deserialize(order, a.payload.as_slice()),
            None => Err(DeError::NoAttribute),
        }
    }

    /// The attributes that the value of the first attribute of type `attr` holds.
    pub fn get_nested_attributes<S: NlAttrType>(&self, order: ByteOrder, attr: T) -> (r: Result<
        AttrHandle<'static, S>,
        DeError,
    >)
        ensures
            match r {
                Ok(handle) => nested_attributes::<T, S>(order, self@, attr) == Ok::<
                    Seq<NlattrView<S>>,
                    DeError,
                >(handle@),
                Err(e) => nested_attributes::<T, S>(order, self@, attr) == Err::<
                    Seq<NlattrView<S>>,
                    DeError,
                >(e),
            },
    {
        match self.get_attribute(attr) {
            Some(a) => a.get_nested_attributes(order),
            None => Err(DeError::NoAttribute),
        }
    }
}

} // verus!
