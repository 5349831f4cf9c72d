//! Netlink sockets: sending and receiving the messages by which a program talks to the kernel.
//!
//! The library holds the state of a socket and decides what each operation does; it makes no system
//! call itself. An operation names the call that it needs next as a [`sys::SysCall`], and its caller
//! makes that call and hands the [`sys::SysReply`] back.
//!
//! # Sending and receiving
//!
//! * [`socket::NlSocket::send`] and [`socket::NlSocket::recv`] are the lowest level. They stand for
//!   the system calls of the same names.
//! * [`socket::NlSocket::send_nl`] and [`socket::NlSocket::recv_nl`] work on any value that is wrapped
//!   in an [`nl::Nlmsghdr`] and implements [`nl::Nl`].
//! * [`socket::NlSocket::iter`] goes through the messages that are received in a stream over the
//!   socket.
//! * [`socket::NlSocket::recv_ack`] receives an acknowledgement and checks that it matches the
//!   request.
//!
//! # Modules
//!
//! * [`socket`] is the socket with what it sends and receives, [`setup`] opens, binds and configures
//!   it, and [`resolve`] asks the generic netlink controller for the numbers behind names.
//! * [`tokio`] is the socket of an event loop.
//! * [`nl`], [`genl`], [`nlattr`], [`payload`] and [`err`] are what messages are made of, [`consts`]
//!   the numbers of the protocol, [`groups`] the multicast groups and [`bytes`] the integers.
//! * [`sys`] is what passes between the library and the system, and [`buffer`] the streams that
//!   messages are read from and written to.
//! * [`laws`] states what holds of these together.

use vstd::prelude::*;

pub mod buffer;
pub mod bytes;
pub mod consts;
pub mod err;
pub mod genl;
pub mod groups;
pub mod laws;
pub mod nl;
pub mod nlattr;
pub mod payload;
pub mod resolve;
pub mod setup;
pub mod socket;
pub mod sys;
pub mod tokio;

verus! {

} // verus!
