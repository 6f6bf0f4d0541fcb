//! Socket addresses in the form the native connect call reads.
//!
//! An [`Addr`] is a buffer of [`STORAGE_CAPACITY`] bytes and the count of
//! leading bytes that mean something. Its view is exactly those bytes. The
//! layouts written here are the ones of Linux: a two-byte family tag in the
//! machine's byte order, then the fields of the family.

use vstd::prelude::*;
use crate::native::{native_u16, native_u32, u16_native_bytes, u32_native_bytes};
use crate::tags::Domain;

verus! {

/// Size of the buffer an address is held in: that of the largest native
/// address structure.
pub const STORAGE_CAPACITY: usize = 128;

/// Where the path starts in a Unix-domain address: right after the family tag.
pub const PATH_OFFSET: usize = 2;

/// Room for the path in a Unix-domain address, terminator included.
pub const PATH_CAPACITY: usize = 108;

/// Size of an IPv4 address structure.
pub const INET_LEN: usize = 16;

/// Size of an IPv6 address structure.
pub const INET6_LEN: usize = 28;

/// An IPv4 endpoint: the four octets of the host, first octet first, and the
/// port.
#[derive(Clone, Copy, Debug, PartialEq, Eq)]
pub struct EndpointV4 {
    pub octets: [u8; 4],
    pub port: u16,
}

/// An IPv6 endpoint: the sixteen octets of the host, first octet first, the
/// port, the flow information and the scope identifier.
#[derive(Clone, Copy, Debug, PartialEq, Eq)]
pub struct EndpointV6 {
    pub octets: [u8; 16],
    pub port: u16,
    pub flowinfo: u32,
    pub scope_id: u32,
}

/// Why an endpoint has no native form.
#[derive(Clone, Copy, Debug, PartialEq, Eq)]
pub enum EncodeError {
    /// The path is `len` bytes long and at most `limit` fit.
    PathTooLong { len: usize, limit: usize },
}

/// The two bytes of `x`, most significant first.
pub open spec fn be_u16(x: u16) -> Seq<u8> {
    seq![(x >> 8) as u8, (x & 0xff) as u8]
}

/// The family tag that leads every address: the low sixteen bits of the
/// family's code, in the machine's byte order.
pub open spec fn family_tag(code: i32) -> Seq<u8> {
    native_u16(code as u16)
}

/// Whether a path names a socket in the abstract namespace: its first byte is
/// NUL.
pub open spec fn is_abstract(path: Seq<u8>) -> bool {
    path.len() > 0 && path[0] == 0
}

/// What follows the path in the address: nothing after an abstract name, one
/// NUL after any other path.
pub open spec fn terminator(path: Seq<u8>) -> Seq<u8> {
    if is_abstract(path) {
        Seq::empty()
    } else {
        seq![0u8]
    }
}

/// The longest path of this sort that can be encoded.
pub open spec fn path_limit(path: Seq<u8>) -> nat {
    if is_abstract(path) {
        PATH_CAPACITY as nat
    } else {
        (PATH_CAPACITY - 1) as nat
    }
}

/// Whether a path can be encoded: it fits the room for it together with its
/// terminator, if it takes one.
pub open spec fn path_fits(path: Seq<u8>) -> bool {
    path.len() <= path_limit(path)
}

/// The native form of a Unix-domain address: tag, path, terminator.
pub open spec fn unix_image(code: i32, path: Seq<u8>) -> Seq<u8> {
    family_tag(code) + path + terminator(path)
}

/// What encoding a Unix-domain path gives: its image if the path and its
/// terminator fit, the refusal if not.
pub open spec fn encode_unix(code: i32, path: Seq<u8>) -> Result<Seq<u8>, EncodeError> {
    if path_fits(path) {
        Ok(unix_image(code, path))
    } else {
        Err(EncodeError::PathTooLong { len: path.len() as usize, limit: path_limit(path) as usize })
    }
}

/// Whether `result` is what encoding `path` under the family code `code`
/// gives: the address whose bytes are the image, or the refusal.
pub open spec fn is_unix_encoding(
    result: Result<Addr, EncodeError>,
    code: i32,
    path: Seq<u8>,
) -> bool {
    match result {
        Ok(addr) => encode_unix(code, path) == Ok::<Seq<u8>, EncodeError>(addr@),
        Err(e) => encode_unix(code, path) == Err::<Seq<u8>, EncodeError>(e),
    }
}

/// The native form of an IPv4 address: tag, port in network order, host, and
/// eight bytes of zero padding.
pub open spec fn inet_image(code: i32, endpoint: EndpointV4) -> Seq<u8> {
    family_tag(code) + be_u16(endpoint.port) + endpoint.octets@ + Seq::new(8, |i: int| 0u8)
}

/// The native form of an IPv6 address: tag, port in network order, flow
/// information, host, scope identifier.
pub open spec fn inet6_image(code: i32, endpoint: EndpointV6) -> Seq<u8> {
    family_tag(code) + be_u16(endpoint.port) + native_u32(endpoint.flowinfo) + endpoint.octets@
        + native_u32(endpoint.scope_id)
}

/// A native socket address: a fixed buffer and the length of its meaningful
/// prefix. Nothing past that prefix is ever handed out.
pub struct Addr {
    storage: [u8; STORAGE_CAPACITY],
    len: u32,
}

impl View for Addr {
    type V = Seq<u8>;

    /// The meaningful bytes of the address.
    closed spec fn view(&self) -> Seq<u8> {
        self.storage@.subrange(0, self.len as int)
    }
}

impl EncodeError {
    /// The text the refusal is reported with.
    pub fn message(&self) -> (text: &'static str)
        ensures
            text@ == (match *self {
                EncodeError::PathTooLong { len, limit } => if limit == PATH_CAPACITY {
                    "path must be no longer than SUN_LEN"@
                } else {
                    "path must be shorter than SUN_LEN"@
                },
            }),
    {
        match self {
            EncodeError::PathTooLong { len: _, limit } => {
                if *limit == PATH_CAPACITY {
                    "path must be no longer than SUN_LEN"
                } else {
                    "path must be shorter than SUN_LEN"
                }
            },
        }
    }
}

impl Addr {
    #[verifier::type_invariant]
    spec fn fits(&self) -> bool {
        self.len <= STORAGE_CAPACITY
    }

    /// Copies `bytes` into a fresh address, whose length is theirs.
    pub fn from_raw_parts(bytes: &[u8]) -> (addr: Addr)
        requires
            bytes@.len() <= STORAGE_CAPACITY,
        ensures
            addr@ == bytes@,
    {
        let mut storage = [0u8; STORAGE_CAPACITY];
        let mut i: usize = 0;
        while i < bytes.len()
            invariant
                i <= bytes@.len() <= STORAGE_CAPACITY,
                forall|j: int| 0 <= j < i ==> storage@[j] == bytes@[j],
            decreases bytes@.len() - i,
        {
            storage[i] = bytes[i];
            i += 1;
        }
        let addr = Addr { storage, len: bytes.len() as u32 };
        assert(addr@ =~= bytes@);
        addr
    }

    /// Returns the size of this address in bytes.
    pub fn len(&self) -> (n: u32)
        ensures
            n == self@.len(),
            n <= STORAGE_CAPACITY,
    {
        proof {
            use_type_invariant(self);
        }
        self.len
    }

    /// Returns the bytes of the address, for the native call to read from
    /// their start.
    pub fn as_ptr(&self) -> (bytes: &[u8])
        ensures
            bytes@ == self@,
    {
        proof {
            use_type_invariant(self);
        }
        vstd::slice::slice_subrange(self.storage.as_slice(), 0, self.len as usize)
    }

    /// Encodes an IPv4 endpoint under the family code that `domain` carries.
    pub fn inet(domain: &Domain, endpoint: &EndpointV4) -> (addr: Addr)
        ensures
            addr@ == inet_image(domain.code(), *endpoint),
    {
        let tag = u16_native_bytes(domain.code() as u16);
        let mut image: Vec<u8> = Vec::new();
        image.push(tag[0]);
        image.push(tag[1]);
        image.push((endpoint.port >> 8) as u8);
        image.push((endpoint.port & 0xff) as u8);
        let mut i: usize = 0;
        while i < 4
            invariant
                i <= 4,
                image@ == family_tag(domain.code()) + be_u16(endpoint.port)
                    + endpoint.octets@.subrange(0, i as int),
            decreases 4 - i,
        {
            image.push(endpoint.octets[i]);
            i += 1;
        }
        let mut k: usize = 0;
        while k < 8
            invariant
                k <= 8,
                image@ == family_tag(domain.code()) + be_u16(endpoint.port) + endpoint.octets@
                    + Seq::new(k as nat, |i: int| 0u8),
            decreases 8 - k,
        {
            image.push(0u8);
            k += 1;
        }
        Addr::from_raw_parts(image.as_slice())
    }

    /// Encodes an IPv6 endpoint under the family code that `domain` carries.
    pub fn inet6(domain: &Domain, endpoint: &EndpointV6) -> (addr: Addr)
        ensures
            addr@ == inet6_image(domain.code(), *endpoint),
    {
        let tag = u16_native_bytes(domain.code() as u16);
        let flow = u32_native_bytes(endpoint.flowinfo);
        let scope = u32_native_bytes(endpoint.scope_id);
        let mut image: Vec<u8> = Vec::new();
        image.push(tag[0]);
        image.push(tag[1]);
        image.push((endpoint.port >> 8) as u8);
        image.push((endpoint.port & 0xff) as u8);
        image.push(flow[0]);
        image.push(flow[1]);
        image.push(flow[2]);
        image.push(flow[3]);
        let ghost head = family_tag(domain.code()) + be_u16(endpoint.port) + native_u32(
            endpoint.flowinfo,
        );
        assert(image@ =~= head);
        let mut i: usize = 0;
        while i < 16
            invariant
                i <= 16,
                image@ == head + endpoint.octets@.subrange(0, i as int),
            decreases 16 - i,
        {
            image.push(endpoint.octets[i]);
            i += 1;
        }
        image.push(scope[0]);
        image.push(scope[1]);
        image.push(scope[2]);
        image.push(scope[3]);
        assert(image@ =~= inet6_image(domain.code(), *endpoint));
        Addr::from_raw_parts(image.as_slice())
    }

    /// Encodes an IPv4 endpoint under the platform's IPv4 family code.
    pub fn from_v4(endpoint: &EndpointV4) -> (addr: Addr)
        ensures
            exists|code: i32| addr@ == inet_image(code, *endpoint),
            addr@.len() == INET_LEN,
    {
        let domain = Domain::ipv4();
        proof {
            law_inet_layout(domain.code(), *endpoint);
        }
        Addr::inet(&domain, endpoint)
    }

    /// Encodes an IPv6 endpoint under the platform's IPv6 family code.
    pub fn from_v6(endpoint: &EndpointV6) -> (addr: Addr)
        ensures
            exists|code: i32| addr@ == inet6_image(code, *endpoint),
            addr@.len() == INET6_LEN,
    {
        let domain = Domain::ipv6();
        proof {
            law_inet6_layout(domain.code(), *endpoint);
        }
        Addr::inet6(&domain, endpoint)
    }

    /// Encodes a Unix-domain path under the family code that `domain`
    /// carries. A path that starts with NUL is an abstract name and is
    /// written as it is; any other path is followed by one NUL, for which
    /// there must be room.
    pub fn unix_in(domain: &Domain, path: &[u8]) -> (result: Result<Addr, EncodeError>)
        ensures
            is_unix_encoding(result, domain.code(), path@),
    {
        let n = path.len();
        let abstract_name = n > 0 && path[0] == 0;
        let limit = if abstract_name {
            PATH_CAPACITY
        } else {
            PATH_CAPACITY - 1
        };
        if n > limit {
            return Err(EncodeError::PathTooLong { len: n, limit });
        }
        let tag = u16_native_bytes(domain.code() as u16);
        let mut image: Vec<u8> = Vec::new();
        image.push(tag[0]);
        image.push(tag[1]);
        let mut i: usize = 0;
        while i < n
            invariant
                i <= n == path@.len(),
                image@ == family_tag(domain.code()) + path@.subrange(0, i as int),
            decreases n - i,
        {
            image.push(path[i]);
            i += 1;
        }
        if !abstract_name {
            image.push(0u8);
        }
        assert(image@ =~= unix_image(domain.code(), path@));
        Ok(Addr::from_raw_parts(image.as_slice()))
    }

    /// Constructs an address with the platform's Unix-domain family and the
    /// provided path.
    pub fn unix(path: &[u8]) -> (result: Result<Addr, EncodeError>)
        ensures
            exists|code: i32| #[trigger] is_unix_encoding(result, code, path@),
            result is Ok <==> path_fits(path@),
    {
        let domain = Domain::unix();
        Addr::unix_in(&domain, path)
    }
}

/// An encoded IPv4 address has the size of the native structure and holds,
/// field by field, the tag, the port with its high byte first, the host, and
/// zero padding.
pub proof fn law_inet_layout(code: i32, endpoint: EndpointV4)
    ensures
        inet_image(code, endpoint).len() == INET_LEN,
        inet_image(code, endpoint).subrange(0, 2) == family_tag(code),
        inet_image(code, endpoint).subrange(2, 4) == be_u16(endpoint.port),
        inet_image(code, endpoint).subrange(4, 8) == endpoint.octets@,
        forall|i: int| 8 <= i < 16 ==> inet_image(code, endpoint)[i] == 0,
{
    let image = inet_image(code, endpoint);
    assert(family_tag(code).len() == 2);
    assert(image.subrange(0, 2) =~= family_tag(code));
    assert(image.subrange(2, 4) =~= be_u16(endpoint.port));
    assert(image.subrange(4, 8) =~= endpoint.octets@);
}

/// An encoded IPv6 address has the size of the native structure and holds,
/// field by field, the tag, the port with its high byte first, the flow
/// information, the host, and the scope identifier.
pub proof fn law_inet6_layout(code: i32, endpoint: EndpointV6)
    ensures
        inet6_image(code, endpoint).len() == INET6_LEN,
        inet6_image(code, endpoint).subrange(0, 2) == family_tag(code),
        inet6_image(code, endpoint).subrange(2, 4) == be_u16(endpoint.port),
        inet6_image(code, endpoint).subrange(4, 8) == native_u32(endpoint.flowinfo),
        inet6_image(code, endpoint).subrange(8, 24) == endpoint.octets@,
        inet6_image(code, endpoint).subrange(24, 28) == native_u32(endpoint.scope_id),
{
    let image = inet6_image(code, endpoint);
    assert(family_tag(code).len() == 2);
    assert(native_u32(endpoint.flowinfo).len() == 4);
    assert(native_u32(endpoint.scope_id).len() == 4);
    assert(image.subrange(0, 2) =~= family_tag(code));
    assert(image.subrange(2, 4) =~= be_u16(endpoint.port));
    assert(image.subrange(4, 8) =~= native_u32(endpoint.flowinfo));
    assert(image.subrange(8, 24) =~= endpoint.octets@);
    assert(image.subrange(24, 28) =~= native_u32(endpoint.scope_id));
}

/// A path that does not start with NUL and is shorter than the room for it
/// is encoded: the address is the tag, the path and one NUL, so its length
/// is the path's offset, the path's length and one.
pub proof fn law_pathname_is_terminated(code: i32, path: Seq<u8>)
    requires
        path.len() < PATH_CAPACITY,
        !is_abstract(path),
    ensures
        encode_unix(code, path) == Ok::<Seq<u8>, EncodeError>(unix_image(code, path)),
        unix_image(code, path).len() == PATH_OFFSET + path.len() + 1,
        unix_image(code, path).subrange(PATH_OFFSET as int, PATH_OFFSET + path.len()) == path,
        unix_image(code, path)[PATH_OFFSET + path.len()] == 0,
{
    let image = unix_image(code, path);
    assert(family_tag(code).len() == 2);
    assert(image.subrange(PATH_OFFSET as int, PATH_OFFSET + path.len()) =~= path);
}

/// A path that does not start with NUL and fills the room for it leaves no
/// place for the terminator and is refused.
pub proof fn law_full_pathname_is_refused(code: i32, path: Seq<u8>)
    requires
        path.len() == PATH_CAPACITY,
        !is_abstract(path),
    ensures
        encode_unix(code, path) == Err::<Seq<u8>, EncodeError>(
            EncodeError::PathTooLong { len: PATH_CAPACITY, limit: (PATH_CAPACITY - 1) as usize },
        ),
{
}

/// An abstract name is encoded as long as it does not exceed the room for
/// it, and then without a terminator: the address is the tag and the name,
/// so its length is the path's offset and the name's length. A longer one is
/// refused.
pub proof fn law_abstract_name_is_bare(code: i32, path: Seq<u8>)
    requires
        is_abstract(path),
    ensures
        path.len() <= PATH_CAPACITY ==> {
            &&& encode_unix(code, path) == Ok::<Seq<u8>, EncodeError>(unix_image(code, path))
            &&& unix_image(code, path).len() == PATH_OFFSET + path.len()
            &&& unix_image(code, path).subrange(PATH_OFFSET as int, PATH_OFFSET + path.len())
                == path
        },
        path.len() > PATH_CAPACITY ==> encode_unix(code, path) is Err,
{
    let image = unix_image(code, path);
    assert(family_tag(code).len() == 2);
    assert(image.subrange(PATH_OFFSET as int, PATH_OFFSET + path.len()) =~= path);
}

/// Every encoded address fits the buffer that holds it.
pub proof fn law_images_fit(code: i32, v4: EndpointV4, v6: EndpointV6, path: Seq<u8>)
    ensures
        inet_image(code, v4).len() <= STORAGE_CAPACITY,
        inet6_image(code, v6).len() <= STORAGE_CAPACITY,
        path_fits(path) ==> unix_image(code, path).len() <= PATH_OFFSET + PATH_CAPACITY
            <= STORAGE_CAPACITY,
{
    assert(family_tag(code).len() == 2);
    assert(native_u32(v6.flowinfo).len() == 4);
    assert(native_u32(v6.scope_id).len() == 4);
}

} // verus!
