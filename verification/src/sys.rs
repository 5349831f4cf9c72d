//! The system calls that an operation on a socket asks for, and what the system answers.
//!
//! The library makes no system call itself. An operation says which call it needs next, its caller
//! makes that call and hands back the reply, until the operation is done.

use vstd::prelude::*;

verus! {

/// The address of a netlink socket.
#[derive(Debug, Clone, Copy, PartialEq, Eq, Structural)]
pub struct SockaddrNl {
    /// The address family.
    pub nl_family: u16,
    /// The netlink ID.
    pub nl_pid: u32,
    /// The multicast groups, one bit for each.
    pub nl_groups: u32,
}

/// A system call with its arguments.
#[derive(Debug, PartialEq, Eq)]
pub enum SysCall {
    /// `socket(domain, ty, protocol)`
    Socket { domain: i32, ty: i32, protocol: i32 },
    /// `fcntl(fd, cmd, arg)`
    Fcntl { fd: i32, cmd: i32, arg: i32 },
    /// `bind(fd, &addr, addr_len)`
    Bind { fd: i32, addr: SockaddrNl, addr_len: u32 },
    /// `getsockname(fd, &mut addr, &mut addr_len)`, where the length starts out as given
    Getsockname { fd: i32, addr_len: u32 },
    /// `setsockopt(fd, level, name, &value, 4)`
    Setsockopt { fd: i32, level: i32, name: i32, value: u32 },
    /// `send(fd, buf, buf.len(), flags)`
    Send { fd: i32, buf: Vec<u8>, flags: i32 },
    /// `recv(fd, mem, len, flags)`, where `mem` is a buffer of `len` bytes
    Recv { fd: i32, len: usize, flags: i32 },
    /// `close(fd)`
    Close { fd: i32 },
}

/// What the system answered.
#[derive(Debug, PartialEq, Eq)]
pub struct SysReply {
    /// The value that the call returned.
    pub ret: isize,
    /// The buffer that `recv` wrote to; of no meaning for the other calls.
    pub mem: Vec<u8>,
    /// The address that `getsockname` wrote; of no meaning for the other calls.
    pub addr: SockaddrNl,
    /// The length that `getsockname` wrote; of no meaning for the other calls.
    pub addr_len: u32,
}

impl SysReply {
    /// The reply of a call that only returns a value.
    pub fn returned(ret: isize) -> (r: SysReply)
        ensures
            r.ret == ret,
            r.mem@ == Seq::<u8>::empty(),
            r.addr == (SockaddrNl { nl_family: 0, nl_pid: 0, nl_groups: 0 }),
            r.addr_len == 0,
    {
        SysReply {
            ret,
            mem: Vec::new(),
            addr: SockaddrNl { nl_family: 0, nl_pid: 0, nl_groups: 0 },
            addr_len: 0,
        }
    }
}

/// What an operation does next: it waits, as `S` says, for the reply to a call, or it is done.
#[derive(Debug)]
pub enum Step<S, R> {
    /// The call is to be made, and its reply to be handed back with the state.
    Call(S, SysCall),
    /// The operation is done with this result.
    Done(R),
}

/// [`std::io::Error::last_os_error`]: the error of the last system call that failed. Nothing is
/// stated of it, for it rests on what the system reported.
pub assume_specification[ std::io::Error::last_os_error ]() -> std::io::Error;

/// `libc::AF_NETLINK`, the address family of netlink: 16 on Linux.
#[verifier::external_body]
pub(crate) fn af_netlink() -> (r: i32)
    ensures
        r == 16,
{
    libc::AF_NETLINK
}

/// `libc::SOCK_RAW`, the socket type of netlink: 3 on Linux.
#[verifier::external_body]
pub(crate) fn sock_raw() -> (r: i32)
    ensures
        r == 3,
{
    libc::SOCK_RAW
}

/// `libc::F_GETFL`, the command that reads the status flags: 3 on Linux.
#[verifier::external_body]
pub(crate) fn f_getfl() -> (r: i32)
    ensures
        r == 3,
{
    libc::F_GETFL
}

/// `libc::F_SETFL`, the command that writes the status flags: 4 on Linux.
#[verifier::external_body]
pub(crate) fn f_setfl() -> (r: i32)
    ensures
        r == 4,
{
    libc::F_SETFL
}

/// Whether `m` is the status flag of a descriptor that does not block on some machine.
pub open spec fn is_nonblock_flag(m: i32) -> bool {
    m == 0x80 || m == 0x800 || m == 0x4000
}

/// `libc::O_NONBLOCK`, the status flag of a descriptor that does not block. Which bit it is depends
/// on the processor.
#[verifier::external_body]
fn o_nonblock() -> (r: i32)
    ensures
        is_nonblock_flag(r),
{
    libc::O_NONBLOCK
}

/// Whether `m` is the status flag of a descriptor that does not block on the machine that this runs
/// on.
pub closed spec fn is_machine_nonblock_flag(m: i32) -> bool {
    call_ensures(o_nonblock, (), m)
}

/// The flag of the machine is one of those that machines have.
pub proof fn law_machine_nonblock_flag(m: i32)
    requires
        is_machine_nonblock_flag(m),
    ensures
        m == 0x80 || m == 0x800 || m == 0x4000,
{
}

/// The status flag of a descriptor that does not block on the machine that this runs on.
pub fn nonblock_flag() -> (m: i32)
    ensures
        is_machine_nonblock_flag(m),
        is_nonblock_flag(m),
{
    o_nonblock()
}

/// `libc::SOL_NETLINK`, the level of the socket options of netlink: 270 on Linux.
#[verifier::external_body]
pub(crate) fn sol_netlink() -> (r: i32)
    ensures
        r == 270,
{
    libc::SOL_NETLINK
}

/// `libc::NETLINK_ADD_MEMBERSHIP`, the option that joins multicast groups: 1 on Linux.
#[verifier::external_body]
pub(crate) fn netlink_add_membership() -> (r: i32)
    ensures
        r == 1,
{
    libc::NETLINK_ADD_MEMBERSHIP
}

/// The size of `libc::sockaddr_nl`: two 16-bit and two 32-bit fields.
#[verifier::external_body]
pub(crate) fn sockaddr_nl_len() -> (r: u32)
    ensures
        r == 12,
{
    std::mem::size_of::<libc::sockaddr_nl>() as u32
}

} // verus!
