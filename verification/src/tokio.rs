//! The netlink socket of an event loop, which hands out messages as they become ready.

use crate::buffer::{min, stream_at_end, stream_new, StreamView};
use crate::bytes::ByteOrder;
use crate::consts::{NlType, MAX_NL_LENGTH};
use crate::err::DeError;
use crate::nl::{read_msg, stream_after, Nl, Nlmsghdr, NlmsghdrView};
use crate::setup::{flags_block, flags_next, getfl_call, FlagsState, Next};
use crate::socket::buffer_view;
use crate::sys::{
    is_machine_nonblock_flag, is_nonblock_flag, nonblock_flag, Step, SysCall, SysReply,
};
use buffering::copy::StreamReadBuffer;
use core::marker::PhantomData;
use vstd::prelude::*;

verus! {

/// The state of a netlink socket of an event loop that hands out messages of type `T` with payload
/// `P`.
pub struct NlSocket<T, P> {
    /// The byte order of the messages.
    pub order: ByteOrder,
    /// What was received last.
    pub buffer: Option<StreamReadBuffer<Vec<u8>>>,
    /// The type of the messages.
    pub type_data: PhantomData<T>,
    /// The payload of the messages.
    pub payload_data: PhantomData<P>,
}

/// What a socket of an event loop stands for.
#[verifier::ext_equal]
pub struct AsyncView {
    pub order: ByteOrder,
    pub buffer: Option<StreamView>,
}

impl<T, P> View for NlSocket<T, P> {
    type V = AsyncView;

    open spec fn view(&self) -> AsyncView {
        AsyncView { order: self.order, buffer: buffer_view(self.buffer) }
    }
}

/// What making a socket one of an event loop waits for.
#[derive(Debug, Clone, Copy, PartialEq, Eq, Structural)]
pub enum NewState {
    /// Whether its descriptor blocks.
    Ask,
    /// What making its descriptor not block waits for.
    Flags(FlagsState),
}

/// What follows in making a socket one of an event loop when a call has returned `ret`, where `m` is
/// the flag of a descriptor that does not block. A descriptor that blocks is made not to.
pub open spec fn new_next(fd: i32, state: NewState, ret: isize, m: i32) -> Next<NewState> {
    match state {
        NewState::Ask => if ret < 0 {
            Next::Done(false)
        } else if flags_block(ret as i32, m) {
            Next::Call(NewState::Flags(FlagsState::ReadToNonblock), getfl_call(fd))
        } else {
            Next::Done(true)
        },
        NewState::Flags(flags) => match flags_next(fd, flags, ret, m) {
            Next::Call(next, call) => Next::Call(NewState::Flags(next), call),
            Next::Done(success) => Next::Done(success),
        },
    }
}

/// Whether `r` is the step that `next` says, with a fresh socket at a successful end.
pub open spec fn makes<T, P>(
    r: Step<NewState, Result<NlSocket<T, P>, std::io::Error>>,
    order: ByteOrder,
    next: Next<NewState>,
) -> bool {
    match next {
        Next::Call(state, call) => r == Step::<NewState, Result<NlSocket<T, P>, std::io::Error>>::Call(
            state,
            call,
        ),
        Next::Done(true) => r matches Step::Done(Ok(s)) && s@ == (AsyncView { order, buffer: None }),
        Next::Done(false) => r matches Step::Done(Err(_)),
    }
}

/// What became of reading from the socket.
pub enum PollRead {
    /// The buffer was read into, and so many of its bytes were written.
    Ready(usize, Vec<u8>),
    /// There is nothing to be read yet.
    NotReady,
    /// Reading failed.
    Failed(std::io::Error),
}

/// A value that may not be ready yet.
#[derive(Debug, PartialEq, Eq)]
pub enum Async<T> {
    /// The value.
    Ready(T),
    /// It is not ready.
    NotReady,
}

/// Why there is no message.
#[derive(Debug)]
pub enum PollError {
    /// Reading failed.
    Io(std::io::Error),
    /// What was received is no message.
    InvalidData,
    /// There is nothing that a message could be read from.
    UnexpectedEof,
}

/// What polling hands out.
pub enum PollView<T, V> {
    /// A message.
    Message(NlmsghdrView<T, V>),
    /// The end of the messages.
    End,
    /// Nothing yet.
    NotReady,
    /// The failure of reading, with its error.
    Io(std::io::Error),
    /// The failure that what was received is no message.
    InvalidData,
    /// The failure that there is nothing to read a message from.
    UnexpectedEof,
}

/// What the result of polling stands for.
pub open spec fn poll_view<T, P: View>(r: Result<Async<Option<Nlmsghdr<T, P>>>, PollError>) -> PollView<T, P::V> {
    match r {
        Ok(Async::Ready(Some(msg))) => PollView::Message(msg@),
        Ok(Async::Ready(None)) => PollView::End,
        Ok(Async::NotReady) => PollView::NotReady,
        Err(PollError::Io(e)) => PollView::Io(e),
        Err(PollError::InvalidData) => PollView::InvalidData,
        Err(PollError::UnexpectedEof) => PollView::UnexpectedEof,
    }
}

/// Whether there is nothing left to hand out.
pub open spec fn nothing_left(s: AsyncView) -> bool {
    match s.buffer {
        Some(b) => b.unread.len() == 0,
        None => true,
    }
}

/// The socket when the next message of its buffer has been taken, and what is handed out.
pub open spec fn polled_buffer<T: NlType, P: Nl>(s: AsyncView) -> (AsyncView, PollView<T, P::V>) {
    let before = s.buffer->0;
    let after = AsyncView { buffer: Some(stream_after::<T, P>(s.order, before)), ..s };
    match read_msg::<T, P>(s.order, before.unread) {
        Ok((msg, _)) => (after, PollView::Message(msg)),
        Err(_) => (after, PollView::InvalidData),
    }
}

/// The socket when it has been polled, and what is handed out. What was read counts just where
/// nothing was left to hand out.
pub open spec fn polled<T: NlType, P: Nl>(s: AsyncView, read: Option<PollRead>) -> (AsyncView, PollView<T, P::V>) {
    if nothing_left(s) {
        match read->0 {
            PollRead::Ready(n, mem) => if n == 0 {
                (s, PollView::End)
            } else {
                polled_buffer::<T, P>(
                    AsyncView {
                        buffer: Some(StreamView::fresh(mem@.take(min(n as nat, mem@.len()) as int))),
                        ..s
                    },
                )
            },
            PollRead::NotReady => (s, PollView::NotReady),
            PollRead::Failed(e) => (s, PollView::Io(e)),
        }
    } else {
        polled_buffer::<T, P>(s)
    }
}

impl<T: NlType, P: Nl> NlSocket<T, P> {
    /// Makes a socket one of an event loop; [`NlSocket::new_step`] goes on.
    pub fn new(sock: &crate::socket::NlSocket) -> (r: (NewState, SysCall))
        ensures
            r == (NewState::Ask, getfl_call(sock@.fd)),
    {
        (NewState::Ask, sock.is_blocking())
    }

    /// A socket that nothing was received on.
    fn fresh(order: ByteOrder) -> (s: Self)
        ensures
            s@ == (AsyncView { order, buffer: None }),
    {
        NlSocket { order, buffer: None, type_data: PhantomData, payload_data: PhantomData }
    }

    /// What follows in making a socket one of an event loop, where `m` is the flag of a descriptor
    /// that does not block.
    pub fn new_step_with(sock: &crate::socket::NlSocket, state: NewState, reply: &SysReply, m: i32) -> (r: Step<
        NewState,
        Result<NlSocket<T, P>, std::io::Error>,
    >)
        ensures
            makes(r, sock@.order, new_next(sock@.fd, state, reply.ret, m)),
    {
        match state {
            NewState::Ask => match crate::socket::NlSocket::is_blocking_with(reply, m) {
                Ok(true) => {
                    let (flags, call) = sock.nonblock();
                    Step::Call(NewState::Flags(flags), call)
                },
                Ok(false) => Step::Done(Ok(Self::fresh(sock.order))),
                Err(e) => Step::Done(Err(e)),
            },
            NewState::Flags(flags) => match sock.flags_step_with(flags, reply, m) {
                Step::Call(flags, call) => Step::Call(NewState::Flags(flags), call),
                Step::Done(Ok(())) => Step::Done(Ok(Self::fresh(sock.order))),
                Step::Done(Err(e)) => Step::Done(Err(e)),
            },
        }
    }

    /// What follows in making a socket one of an event loop.
    pub fn new_step(sock: &crate::socket::NlSocket, state: NewState, reply: &SysReply) -> (r: Step<
        NewState,
        Result<NlSocket<T, P>, std::io::Error>,
    >)
        ensures
            exists|m: i32|
                is_machine_nonblock_flag(m) && is_nonblock_flag(m) && makes(
                    r,
                    sock@.order,
                    #[trigger] new_next(sock@.fd, state, reply.ret, m),
                ),
    {
        Self::new_step_with(sock, state, reply, nonblock_flag())
    }

    /// Whether there is nothing left to hand out.
    pub fn empty(&self) -> (r: bool)
        ensures
            r == nothing_left(self@),
    {
        match &self.buffer {
            Some(b) => stream_at_end(b),
            None => true,
        }
    }

    /// The size of the buffer that [`NlSocket::poll`] needs read into, unless something is left to
    /// hand out.
    pub fn poll_len(&self) -> (len: Option<usize>)
        ensures
            len == (if nothing_left(self@) {
                Some(MAX_NL_LENGTH)
            } else {
                None
            }),
    {
        if self.empty() {
            Some(MAX_NL_LENGTH)
        } else {
            None
        }
    }

    /// Hands out the next message, if one is ready: of what is left, or where nothing is of what was
    /// read. A failure to read is handed on as it is.
    pub fn poll(&mut self, read: Option<PollRead>) -> (r: Result<Async<Option<Nlmsghdr<T, P>>>, PollError>)
        requires
            nothing_left(old(self)@) ==> read is Some,
        ensures
            (final(self)@, poll_view(r)) == polled::<T, P>(old(self)@, read),
    {
        if self.empty() {
            match read {
                Some(PollRead::Ready(n, mem)) => {
                    if n == 0 {
                        return Ok(Async::Ready(None));
                    }
                    let mut bytes: Vec<u8> = mem;
                    bytes.truncate(n);
                    assert(bytes@ =~= mem@.take(min(n as nat, mem@.len()) as int));
                    self.buffer = Some(stream_new(bytes));
                },
                Some(PollRead::NotReady) => {
                    return Ok(Async::NotReady);
                },
                Some(PollRead::Failed(e)) => {
                    return Err(PollError::Io(e));
                },
                None => {},
            }
        }
        let order: ByteOrder = self.order;
        match &mut self.buffer {
            Some(b) => {
                let read: Result<Nlmsghdr<T, P>, DeError> = Nlmsghdr::deserialize(order, b);
                match read {
                    Ok(msg) => Ok(Async::Ready(Some(msg))),
                    Err(_) => Err(PollError::InvalidData),
                }
            },
            None => Err(PollError::UnexpectedEof),
        }
    }
}

} // verus!
