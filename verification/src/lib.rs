//! Non-blocking sockets, as far as they can be decided without touching the
//! platform.
//!
//! The library lays out socket addresses in their native form ([`addr`]),
//! decides call by call how a socket is created so that it is non-blocking
//! and not inherited by child processes ([`posix`], [`winsock`]), and keeps
//! track of who has to close a handle ([`socket`]). The native calls
//! themselves are made by the caller, who hands their results back as
//! plain values.

pub mod native;
pub mod tags;
pub mod addr;
pub mod socket;
pub mod posix;
pub mod winsock;

pub use addr::{Addr, EncodeError, EndpointV4, EndpointV6};
pub use socket::{Connect, Endpoint, Error, Socket};
pub use tags::{Domain, Protocol, Type};
