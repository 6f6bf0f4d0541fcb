//! The owner of one native socket handle, and what it asks the platform to
//! connect to.
//!
//! A [`Socket`] holds a handle and knows whether closing it is still its own
//! duty. Giving the handle away and tearing the socket down both end that
//! duty, so the handle is closed at most once, and never by a socket that
//! gave it away.

use vstd::prelude::*;
use crate::addr::{
    inet6_image, inet_image, is_unix_encoding, path_fits, Addr, EncodeError, EndpointV4,
    EndpointV6,
};

verus! {

/// What went wrong: the endpoint has no native form, or a native call
/// failed with the code the platform reported.
#[derive(Clone, Copy, Debug, PartialEq, Eq)]
pub enum Error {
    Encode(EncodeError),
    Os { code: i32 },
}

/// Where to connect to.
#[derive(Debug, PartialEq, Eq)]
pub enum Endpoint {
    V4(EndpointV4),
    V6(EndpointV6),
    /// A Unix-domain path, as bytes.
    Unix(Vec<u8>),
}

/// The native connect call to make: on which handle, to which address.
pub struct Connect<H> {
    pub handle: H,
    pub addr: Addr,
}

/// The sole owner of one native socket handle.
#[derive(Debug)]
pub struct Socket<H> {
    handle: H,
    owned: bool,
}

/// Whether `result` is the native form of `endpoint` under some family
/// code, or the refusal to encode it.
pub open spec fn is_encoding(result: Result<Addr, EncodeError>, endpoint: Endpoint) -> bool {
    match endpoint {
        Endpoint::V4(v4) => result is Ok && exists|code: i32|
            result->Ok_0@ == #[trigger] inet_image(code, v4),
        Endpoint::V6(v6) => result is Ok && exists|code: i32|
            result->Ok_0@ == #[trigger] inet6_image(code, v6),
        Endpoint::Unix(path) => exists|code: i32|
            #[trigger] is_unix_encoding(result, code, path@),
    }
}

impl Endpoint {
    /// Whether the endpoint has a native form: any IP endpoint has, a path
    /// has if it fits with its terminator.
    pub open spec fn encodable(&self) -> bool {
        match *self {
            Endpoint::Unix(path) => path_fits(path@),
            _ => true,
        }
    }

    /// Encodes the endpoint as the address the native call reads, under
    /// the platform's code of its family.
    pub fn encode(&self) -> (result: Result<Addr, EncodeError>)
        ensures
            is_encoding(result, *self),
            result is Ok <==> self.encodable(),
    {
        match self {
            Endpoint::V4(v4) => Ok(Addr::from_v4(v4)),
            Endpoint::V6(v6) => Ok(Addr::from_v6(v6)),
            Endpoint::Unix(path) => Addr::unix(path.as_slice()),
        }
    }
}

impl<H: Copy> Socket<H> {
    /// The handle the socket holds.
    pub closed spec fn handle(&self) -> H {
        self.handle
    }

    /// Whether closing the handle is still this socket's duty.
    pub closed spec fn owned(&self) -> bool {
        self.owned
    }

    /// The socket once its handle was given away or closed: the same
    /// handle, no longer its own.
    pub closed spec fn disarmed(&self) -> Self {
        Socket { handle: self.handle, owned: false }
    }

    /// The handle that tearing the socket down has to close, if any.
    pub open spec fn to_close(&self) -> Option<H> {
        if self.owned() {
            Some(self.handle())
        } else {
            None
        }
    }

    /// Takes ownership of a handle.
    pub fn from_raw(handle: H) -> (socket: Self)
        ensures
            socket.handle() == handle,
            socket.owned(),
    {
        Socket { handle, owned: true }
    }

    /// The handle, which stays with the socket.
    pub fn as_raw(&self) -> (handle: H)
        ensures
            handle == self.handle(),
    {
        self.handle
    }

    /// Gives the handle away: the caller owns it from now on, and tearing
    /// this socket down will close nothing.
    pub fn release(&mut self) -> (handle: H)
        ensures
            handle == old(self).handle(),
            *final(self) == old(self).disarmed(),
    {
        self.owned = false;
        self.handle
    }

    /// Ends the socket's life: returns the handle to close, once, unless it
    /// was given away.
    pub fn teardown(&mut self) -> (closing: Option<H>)
        ensures
            closing == old(self).to_close(),
            *final(self) == old(self).disarmed(),
    {
        let closing = if self.owned {
            Some(self.handle)
        } else {
            None
        };
        self.owned = false;
        closing
    }

    /// The native call that connects this socket to the specified endpoint:
    /// the endpoint is encoded first, and only if it has a native form is
    /// there a call to make.
    pub fn connect_call(&self, endpoint: &Endpoint) -> (result: Result<Connect<H>, Error>)
        ensures
            result is Ok <==> endpoint.encodable(),
            match result {
                Ok(call) => call.handle == self.handle() && is_encoding(
                    Ok::<Addr, EncodeError>(call.addr),
                    *endpoint,
                ),
                Err(error) => error matches Error::Encode(e) && is_encoding(
                    Err::<Addr, EncodeError>(e),
                    *endpoint,
                ),
            },
    {
        match endpoint.encode() {
            Ok(addr) => Ok(Connect { handle: self.handle, addr }),
            Err(e) => Err(Error::Encode(e)),
        }
    }
}

/// A socket that gave its handle away closes nothing when it is torn down,
/// and still names the same handle.
pub proof fn law_given_away_is_not_closed<H: Copy>(socket: Socket<H>)
    ensures
        socket.disarmed().to_close() is None,
        socket.disarmed().handle() == socket.handle(),
        socket.disarmed().disarmed() == socket.disarmed(),
{
}

/// A socket that owns its handle closes exactly that handle when it is torn
/// down, and nothing when it is torn down again.
pub proof fn law_closed_once<H: Copy>(socket: Socket<H>)
    requires
        socket.owned(),
    ensures
        socket.to_close() == Some(socket.handle()),
        socket.disarmed().to_close() is None,
{
}

} // verus!
