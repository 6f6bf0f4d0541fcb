//! The platform's numbers, read from `libc`, and the machine's byte order.
//!
//! Nothing in this module is proved: each function states what is taken on
//! trust about one item of `libc` or `std`.

use vstd::prelude::*;
use vstd::endian::{endianness, Endian};

verus! {

/// The two bytes of `x` in the byte order of the running machine.
pub open spec fn native_u16(x: u16) -> Seq<u8> {
    match endianness() {
        Endian::Little => seq![(x & 0xff) as u8, (x >> 8) as u8],
        Endian::Big => seq![(x >> 8) as u8, (x & 0xff) as u8],
    }
}

/// The four bytes of `x` in the byte order of the running machine.
pub open spec fn native_u32(x: u32) -> Seq<u8> {
    match endianness() {
        Endian::Little => seq![
            (x & 0xff) as u8,
            ((x >> 8) & 0xff) as u8,
            ((x >> 16) & 0xff) as u8,
            (x >> 24) as u8,
        ],
        Endian::Big => seq![
            (x >> 24) as u8,
            ((x >> 16) & 0xff) as u8,
            ((x >> 8) & 0xff) as u8,
            (x & 0xff) as u8,
        ],
    }
}

/// `u16::to_ne_bytes`: the memory representation of `x`, which is its
/// little-endian form on a little-endian machine and its big-endian form on a
/// big-endian one.
#[verifier::external_body]
pub(crate) fn u16_native_bytes(x: u16) -> (bytes: [u8; 2])
    ensures
        bytes@ == native_u16(x),
{
    x.to_ne_bytes()
}

/// `u32::to_ne_bytes`: the memory representation of `x`, which is its
/// little-endian form on a little-endian machine and its big-endian form on a
/// big-endian one.
#[verifier::external_body]
pub(crate) fn u32_native_bytes(x: u32) -> (bytes: [u8; 4])
    ensures
        bytes@ == native_u32(x),
{
    x.to_ne_bytes()
}

/// `libc::AF_INET`, the code of the IPv4 address family. Its value differs
/// between platforms, so nothing is claimed of it.
#[verifier::external_body]
pub(crate) fn af_inet() -> (code: i32) {
    libc::AF_INET
}

/// `libc::AF_INET6`, the code of the IPv6 address family. Its value differs
/// between platforms, so nothing is claimed of it.
#[verifier::external_body]
pub(crate) fn af_inet6() -> (code: i32) {
    libc::AF_INET6
}

/// `libc::AF_UNIX`, the code of the Unix-domain address family. Its value
/// differs between platforms, so nothing is claimed of it.
#[verifier::external_body]
pub(crate) fn af_unix() -> (code: i32) {
    libc::AF_UNIX
}

/// `libc::SOCK_STREAM`, the code of the reliable byte-stream socket kind. Its
/// value differs between platforms, so nothing is claimed of it.
#[verifier::external_body]
pub(crate) fn sock_stream() -> (code: i32) {
    libc::SOCK_STREAM
}

/// `libc::IPPROTO_TCP`, the protocol number of TCP, which is 6 on every
/// platform that `libc` knows.
#[verifier::external_body]
pub(crate) fn ipproto_tcp() -> (code: i32)
    ensures
        code == 6,
{
    libc::IPPROTO_TCP
}

/// `libc::SOCK_CLOEXEC`, the flag that the creation call takes to make the
/// new descriptor closed on exec. Its value differs between platforms, so
/// nothing is claimed of it.
#[verifier::external_body]
pub(crate) fn sock_cloexec() -> (flag: i32) {
    libc::SOCK_CLOEXEC
}

/// `libc::FD_CLOEXEC`, the descriptor flag that makes a descriptor closed on
/// exec. Its value differs between platforms, so nothing is claimed of it.
#[verifier::external_body]
pub(crate) fn fd_cloexec() -> (flag: i32) {
    libc::FD_CLOEXEC
}

/// `libc::O_NONBLOCK`, the status flag that makes a descriptor non-blocking.
/// Its value differs between platforms, so nothing is claimed of it.
#[verifier::external_body]
pub(crate) fn o_nonblock() -> (flag: i32) {
    libc::O_NONBLOCK
}

} // verus!
