//! The streams of the `buffering` crate that messages are read from and written to.
//!
//! Both types are opaque here. Of a [`StreamReadBuffer`] the library speaks through the bytes that
//! are still to be read and through those that were still to be read before the last read, of a
//! [`StreamWriteBuffer`] through the bytes written so far.

use buffering::copy::{StreamReadBuffer, StreamWriteBuffer};
use std::io::{Read, Write};
use vstd::prelude::*;

verus! {

/// Declares the reading stream of `buffering`.
#[verifier::external_type_specification]
#[verifier::external_body]
#[verifier::reject_recursive_types(T)]
pub struct ExStreamReadBuffer<T>(StreamReadBuffer<T>);

/// Declares the writing stream of `buffering`.
#[verifier::external_type_specification]
#[verifier::external_body]
pub struct ExStreamWriteBuffer<'a>(StreamWriteBuffer<'a>);

/// Declares the error type of std's I/O.
#[verifier::external_type_specification]
#[verifier::external_body]
pub struct ExIoError(std::io::Error);

/// The bytes of the stream that are still to be read.
pub uninterp spec fn stream_unread(b: StreamReadBuffer<Vec<u8>>) -> Seq<u8>;

/// The bytes that were still to be read before the last read; of a stream that was never read from,
/// all of its bytes.
pub uninterp spec fn stream_marked(b: StreamReadBuffer<Vec<u8>>) -> Seq<u8>;

/// The bytes written to the stream so far.
pub uninterp spec fn stream_written(b: StreamWriteBuffer<'_>) -> Seq<u8>;

/// Whether the stream writes to a vector, which grows as needed, and was written to in order.
pub uninterp spec fn stream_growable(b: StreamWriteBuffer<'_>) -> bool;

/// What a reading stream stands for.
#[verifier::ext_equal]
pub struct StreamView {
    /// The bytes that are still to be read.
    pub unread: Seq<u8>,
    /// The bytes that a rewind makes the unread ones again.
    pub marked: Seq<u8>,
}

impl StreamView {
    /// A stream of which nothing has been read.
    pub open spec fn fresh(mem: Seq<u8>) -> StreamView {
        StreamView { unread: mem, marked: mem }
    }
}

/// What the stream stands for.
pub open spec fn stream_view(b: StreamReadBuffer<Vec<u8>>) -> StreamView {
    StreamView { unread: stream_unread(b), marked: stream_marked(b) }
}

/// The smaller of the two.
pub open spec fn min(a: nat, b: nat) -> nat {
    if a <= b {
        a
    } else {
        b
    }
}

/// `StreamReadBuffer::new`: the cursor stands at the start of `mem`, and so does the position that a
/// rewind goes to.
#[verifier::external_body]
pub(crate) fn stream_new(mem: Vec<u8>) -> (b: StreamReadBuffer<Vec<u8>>)
    ensures
        stream_unread(b) == mem@,
        stream_marked(b) == mem@,
{
    StreamReadBuffer::new(mem)
}

/// `StreamReadBuffer`'s `Read::read`: it notes the position for a rewind, then copies as many of the
/// unread bytes as there are and as `mem` has room for to the front of `mem`. Reading from memory,
/// it does not fail.
#[verifier::external_body]
pub(crate) fn stream_read(b: &mut StreamReadBuffer<Vec<u8>>, mem: &mut Vec<u8>) -> (r: Result<usize, std::io::Error>)
    ensures
        r is Ok,
        r->Ok_0 == min(old(mem)@.len(), stream_unread(*old(b)).len()),
        final(mem)@ == stream_unread(*old(b)).take(r->Ok_0 as int) + old(mem)@.skip(r->Ok_0 as int),
        stream_unread(*final(b)) == stream_unread(*old(b)).skip(r->Ok_0 as int),
        stream_marked(*final(b)) == stream_unread(*old(b)),
{
    b.read(mem)
}

/// `StreamReadBuffer::rewind`: the cursor goes back to where it stood before the last read.
#[verifier::external_body]
pub(crate) fn stream_rewind(b: &mut StreamReadBuffer<Vec<u8>>)
    ensures
        stream_unread(*final(b)) == stream_marked(*old(b)),
        stream_marked(*final(b)) == stream_marked(*old(b)),
{
    b.rewind()
}

/// `StreamReadBuffer::at_end`: whether the cursor stands behind the last byte.
#[verifier::external_body]
pub(crate) fn stream_at_end(b: &StreamReadBuffer<Vec<u8>>) -> (r: bool)
    ensures
        r == (stream_unread(*b).len() == 0),
{
    b.at_end()
}

/// `StreamReadBuffer`'s `AsRef::as_ref`: all bytes of the stream, of which the unread ones are the
/// last.
#[verifier::external_body]
pub(crate) fn stream_all(b: &StreamReadBuffer<Vec<u8>>) -> (r: &[u8])
    ensures
        stream_unread(*b).len() <= r@.len(),
        stream_unread(*b) == r@.skip(r@.len() - stream_unread(*b).len()),
{
    b.as_ref()
}

/// `StreamWriteBuffer::new_growable`: nothing is written yet. Where a size is given it allocates that
/// many bytes, of which a vector holds `isize::MAX` at most.
pub assume_specification<'a>[ StreamWriteBuffer::<'a>::new_growable ](size: Option<usize>) -> (w:
    StreamWriteBuffer<'a>)
    requires
        size matches Some(n) ==> n <= isize::MAX,
    ensures
        stream_growable(w),
        stream_written(w) == Seq::<u8>::empty(),
;

/// `StreamWriteBuffer`'s `Write::write`: a growable stream takes all of `mem`, as long as a vector
/// can hold it.
#[verifier::external_body]
pub(crate) fn stream_write<'a>(w: &mut StreamWriteBuffer<'a>, mem: &[u8]) -> (r: Result<usize, std::io::Error>)
    requires
        stream_growable(*old(w)),
        stream_written(*old(w)).len() + mem@.len() <= isize::MAX,
    ensures
        r is Ok,
        r->Ok_0 == mem@.len(),
        stream_growable(*final(w)),
        stream_written(*final(w)) == stream_written(*old(w)) + mem@,
{
    w.write(mem)
}

/// `StreamWriteBuffer`'s `AsRef::as_ref`: the bytes written so far.
#[verifier::external_body]
pub(crate) fn stream_contents<'b>(w: &'b StreamWriteBuffer<'_>) -> (r: &'b [u8])
    requires
        stream_growable(*w),
    ensures
        r@ == stream_written(*w),
{
    w.as_ref()
}

} // verus!
