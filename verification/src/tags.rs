//! The selectors a socket is created from: address family, socket kind and
//! transport protocol. Each carries the one integer the platform knows it by.

use vstd::prelude::*;
use crate::native;

verus! {

/// An address family.
#[derive(Debug)]
pub struct Domain {
    code: i32,
}

impl Domain {
    /// The platform's code of this family.
    pub closed spec fn spec_code(&self) -> i32 {
        self.code
    }

    /// Domain for IPv4 communication.
    pub fn ipv4() -> (domain: Domain) {
        Domain { code: native::af_inet() }
    }

    /// Domain for IPv6 communication.
    pub fn ipv6() -> (domain: Domain) {
        Domain { code: native::af_inet6() }
    }

    /// Domain for Unix socket communication.
    pub fn unix() -> (domain: Domain) {
        Domain { code: native::af_unix() }
    }

    /// The platform's code of this family.
    #[verifier::when_used_as_spec(spec_code)]
    pub fn code(&self) -> (code: i32)
        ensures
            code == self.spec_code(),
    {
        self.code
    }
}

/// A socket kind: the communication semantics of a socket.
#[derive(Debug)]
pub struct Type {
    code: i32,
}

impl Type {
    /// The platform's code of this kind.
    pub closed spec fn spec_code(&self) -> i32 {
        self.code
    }

    /// Used for protocols such as TCP.
    pub fn stream() -> (kind: Type) {
        Type { code: native::sock_stream() }
    }

    /// The platform's code of this kind.
    #[verifier::when_used_as_spec(spec_code)]
    pub fn code(&self) -> (code: i32)
        ensures
            code == self.spec_code(),
    {
        self.code
    }
}

/// A transport protocol.
#[derive(Debug)]
pub struct Protocol {
    code: i32,
}

impl Protocol {
    /// The protocol's number.
    pub closed spec fn spec_code(&self) -> i32 {
        self.code
    }

    /// Protocol corresponding to `TCP`, whose number is 6.
    pub fn tcp() -> (protocol: Protocol)
        ensures
            protocol.code() == 6,
    {
        Protocol { code: native::ipproto_tcp() }
    }

    /// The protocol's number.
    #[verifier::when_used_as_spec(spec_code)]
    pub fn code(&self) -> (code: i32)
        ensures
            code == self.spec_code(),
    {
        self.code
    }
}

} // verus!
