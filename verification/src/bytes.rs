//! Fixed-width integers in the byte order of the machine, and the four-byte alignment of netlink.

use vstd::prelude::*;

verus! {

/// The order in which the bytes of an integer stand on the wire.
///
/// Netlink carries every integer in the byte order of the host.
#[derive(Debug, Clone, Copy, PartialEq, Eq, Structural)]
pub enum ByteOrder {
    /// Least significant byte first.
    Little,
    /// Most significant byte first.
    Big,
}

/// The two bytes of `v`.
pub open spec fn u16_bytes(order: ByteOrder, v: u16) -> Seq<u8> {
    let low = (v % 256) as u8;
    let high = (v / 256) as u8;
    match order {
        ByteOrder::Little => seq![low, high],
        ByteOrder::Big => seq![high, low],
    }
}

/// The integer that the first two bytes of `s` stand for.
pub open spec fn u16_of(order: ByteOrder, s: Seq<u8>) -> u16 {
    match order {
        ByteOrder::Little => (s[0] + 256 * s[1]) as u16,
        ByteOrder::Big => (256 * s[0] + s[1]) as u16,
    }
}

/// The four bytes of `v`: its two halves, each in `order`, the halves in `order` too.
pub open spec fn u32_bytes(order: ByteOrder, v: u32) -> Seq<u8> {
    let low = (v % 65536) as u16;
    let high = (v / 65536) as u16;
    match order {
        ByteOrder::Little => u16_bytes(order, low) + u16_bytes(order, high),
        ByteOrder::Big => u16_bytes(order, high) + u16_bytes(order, low),
    }
}

/// The integer that the first four bytes of `s` stand for.
pub open spec fn u32_of(order: ByteOrder, s: Seq<u8>) -> u32 {
    let first = u16_of(order, s);
    let second = u16_of(order, s.skip(2));
    match order {
        ByteOrder::Little => (first + 65536 * second) as u32,
        ByteOrder::Big => (65536 * first + second) as u32,
    }
}

/// The number of bytes that `n` bytes take when they are padded to a multiple of four.
pub open spec fn align4(n: nat) -> nat {
    (((n + 3) / 4) * 4) as nat
}

/// The zero bytes that pad `n` bytes to a multiple of four.
pub open spec fn padding(n: nat) -> Seq<u8> {
    Seq::new((align4(n) - n) as nat, |i: int| 0u8)
}

/// The bytes of a 16-bit integer give that integer back, whatever follows them.
pub proof fn law_u16_round_trip(order: ByteOrder, v: u16, rest: Seq<u8>)
    ensures
        u16_bytes(order, v).len() == 2,
        u16_of(order, u16_bytes(order, v) + rest) == v,
{
    let s = u16_bytes(order, v) + rest;
    assert(v == (v % 256) + 256 * (v / 256));
    assert(s[0] == u16_bytes(order, v)[0]);
    assert(s[1] == u16_bytes(order, v)[1]);
}

/// The bytes of a 32-bit integer give that integer back, whatever follows them.
pub proof fn law_u32_round_trip(order: ByteOrder, v: u32, rest: Seq<u8>)
    ensures
        u32_bytes(order, v).len() == 4,
        u32_of(order, u32_bytes(order, v) + rest) == v,
{
    let low = (v % 65536) as u16;
    let high = (v / 65536) as u16;
    let (first, second) = match order {
        ByteOrder::Little => (low, high),
        ByteOrder::Big => (high, low),
    };
    let s = u32_bytes(order, v) + rest;
    law_u16_round_trip(order, first, u16_bytes(order, second) + rest);
    law_u16_round_trip(order, second, rest);
    assert(s =~= u16_bytes(order, first) + (u16_bytes(order, second) + rest));
    assert(s.skip(2) =~= u16_bytes(order, second) + rest);
}

/// Only the first four bytes count.
pub proof fn lemma_u32_of_prefix(order: ByteOrder, s: Seq<u8>, t: Seq<u8>)
    requires
        s.len() >= 4,
        t.len() >= 4,
        s.take(4) == t.take(4),
    ensures
        u32_of(order, s) == u32_of(order, t),
{
    assert(forall|i: int| 0 <= i < 4 ==> s.take(4)[i] == s[i] && t.take(4)[i] == t[i]);
}

/// [`std::primitive::u16::from_ne_bytes`]: the two bytes read in the byte order of the machine,
/// which is one of the two.
#[verifier::external_body]
fn u16_from_ne_bytes(bytes: [u8; 2]) -> (v: u16)
    ensures
        v == bytes[0] + 256 * bytes[1] || v == 256 * bytes[0] + bytes[1],
{
    u16::from_ne_bytes(bytes)
}

/// Whether `v` is what the machine that this runs on reads the two bytes as.
pub closed spec fn machine_reads(first: u8, second: u8, v: u16) -> bool {
    call_ensures(u16_from_ne_bytes, ([first, second],), v)
}

/// The machine reads two bytes with the weights one and 256, the lowest first or last.
pub proof fn law_machine_reads(first: u8, second: u8, v: u16)
    requires
        machine_reads(first, second, v),
    ensures
        v == first + 256 * second || v == 256 * first + second,
{
}

/// Whether `order` is the byte order of the machine that this runs on: the one in which a one
/// followed by a zero reads as what the machine reads.
pub open spec fn is_native(order: ByteOrder) -> bool {
    exists|v: u16| #[trigger] machine_reads(1, 0, v) && u16_of(order, seq![1u8, 0u8]) == v
}

impl ByteOrder {
    /// The byte order of the machine that this runs on. Which of the two that is rests on the
    /// machine and is left unsaid.
    pub fn native() -> (order: ByteOrder)
        ensures
            is_native(order),
    {
        let v: u16 = u16_from_ne_bytes([1, 0]);
        assert(machine_reads(1, 0, v));
        Self::that_reads(v)
    }

    /// The byte order in which a one followed by a zero reads as `v`.
    pub fn that_reads(v: u16) -> (order: ByteOrder)
        requires
            v == 1 || v == 256,
        ensures
            u16_of(order, seq![1u8, 0u8]) == v,
            order == (if v == 1 {
                ByteOrder::Little
            } else {
                ByteOrder::Big
            }),
    {
        if v == 1 {
            ByteOrder::Little
        } else {
            ByteOrder::Big
        }
    }
}

/// Appends the two bytes of `v`.
pub fn push_u16(order: ByteOrder, v: u16, out: &mut Vec<u8>)
    ensures
        final(out)@ == old(out)@ + u16_bytes(order, v),
{
    let low: u8 = (v % 256) as u8;
    let high: u8 = (v / 256) as u8;
    match order {
        ByteOrder::Little => {
            out.push(low);
            out.push(high);
        },
        ByteOrder::Big => {
            out.push(high);
            out.push(low);
        },
    }
    assert(out@ =~= old(out)@ + u16_bytes(order, v));
}

/// Appends the four bytes of `v`.
pub fn push_u32(order: ByteOrder, v: u32, out: &mut Vec<u8>)
    ensures
        final(out)@ == old(out)@ + u32_bytes(order, v),
{
    let low: u16 = (v % 65536) as u16;
    let high: u16 = (v / 65536) as u16;
    match order {
        ByteOrder::Little => {
            push_u16(order, low, out);
            push_u16(order, high, out);
        },
        ByteOrder::Big => {
            push_u16(order, high, out);
            push_u16(order, low, out);
        },
    }
    assert(out@ =~= old(out)@ + u32_bytes(order, v));
}

/// Reads the 16-bit integer that stands at `at`.
pub fn get_u16(order: ByteOrder, bytes: &[u8], at: usize) -> (v: u16)
    requires
        at + 2 <= bytes@.len(),
    ensures
        v == u16_of(order, bytes@.skip(at as int)),
{
    let first: u16 = bytes[at] as u16;
    let second: u16 = bytes[at + 1] as u16;
    match order {
        ByteOrder::Little => first + 256 * second,
        ByteOrder::Big => 256 * first + second,
    }
}

/// Reads the 32-bit integer that stands at `at`.
pub fn get_u32(order: ByteOrder, bytes: &[u8], at: usize) -> (v: u32)
    requires
        at + 4 <= bytes@.len(),
    ensures
        v == u32_of(order, bytes@.skip(at as int)),
{
    assert(at + 4 <= bytes.len());
    let first: u32 = get_u16(order, bytes, at) as u32;
    let second: u32 = get_u16(order, bytes, at + 2) as u32;
    assert(bytes@.skip(at as int).skip(2) =~= bytes@.skip(at + 2));
    match order {
        ByteOrder::Little => first + 65536 * second,
        ByteOrder::Big => 65536 * first + second,
    }
}

/// The number of zero bytes that pad `n` bytes to a multiple of four.
pub fn pad_len(n: usize) -> (r: usize)
    ensures
        r == align4(n as nat) - n,
        r < 4,
{
    (4 - n % 4) % 4
}

/// Appends the zero bytes that pad `n` bytes to a multiple of four.
pub fn push_padding(n: usize, out: &mut Vec<u8>)
    ensures
        final(out)@ == old(out)@ + padding(n as nat),
{
    let count: usize = pad_len(n);
    let mut i: usize = 0;
    while i < count
        invariant
            i <= count,
            count == align4(n as nat) - n,
            out@ == old(out)@ + Seq::new(i as nat, |k: int| 0u8),
        decreases count - i,
    {
        out.push(0);
        i = i + 1;
        assert(out@ =~= old(out)@ + Seq::new(i as nat, |k: int| 0u8));
    }
    assert(out@ =~= old(out)@ + padding(n as nat));
}

} // verus!
