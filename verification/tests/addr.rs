use rawsocket::addr::{
    Addr, EncodeError, EndpointV4, EndpointV6, INET6_LEN, INET_LEN, PATH_CAPACITY, PATH_OFFSET,
    STORAGE_CAPACITY,
};
use rawsocket::tags::Domain;

fn tag(code: i32) -> Vec<u8> {
    (code as u16).to_ne_bytes().to_vec()
}

fn unix_bytes(path: &[u8]) -> Vec<u8> {
    match Addr::unix(path) {
        Ok(addr) => addr.as_ptr().to_vec(),
        Err(e) => panic!("refused: {:?}", e),
    }
}

#[test]
fn layout_constants_are_those_of_the_native_structures() {
    assert_eq!(std::mem::size_of::<libc::sockaddr_storage>(), STORAGE_CAPACITY);
    assert_eq!(std::mem::size_of::<libc::sockaddr_in>(), INET_LEN);
    assert_eq!(std::mem::size_of::<libc::sockaddr_in6>(), INET6_LEN);
    assert_eq!(std::mem::size_of::<libc::sockaddr_un>(), PATH_OFFSET + PATH_CAPACITY);
    assert_eq!(std::mem::size_of::<libc::sa_family_t>(), PATH_OFFSET);
}

#[test]
fn pathname_is_followed_by_one_nul() {
    let addr = Addr::unix(b"/tmp/sock").unwrap_or_else(|e| panic!("refused: {:?}", e));
    assert_eq!(addr.len() as usize, PATH_OFFSET + 9 + 1);
    let bytes = addr.as_ptr();
    assert_eq!(bytes.len(), 12);
    assert_eq!(&bytes[..2], &tag(libc::AF_UNIX)[..]);
    assert_eq!(&bytes[2..11], b"/tmp/sock");
    assert_eq!(bytes[11], 0);
}

#[test]
fn pathname_image_is_exact() {
    let mut expected = tag(libc::AF_UNIX);
    expected.extend_from_slice(b"a/b");
    expected.push(0);
    assert_eq!(unix_bytes(b"a/b"), expected);
}

#[test]
fn empty_path_is_a_lone_terminator() {
    let mut expected = tag(libc::AF_UNIX);
    expected.push(0);
    assert_eq!(unix_bytes(b""), expected);
}

#[test]
fn abstract_name_has_no_terminator() {
    let addr = Addr::unix(b"\0name").unwrap_or_else(|e| panic!("refused: {:?}", e));
    assert_eq!(addr.len() as usize, PATH_OFFSET + 5);
    let mut expected = tag(libc::AF_UNIX);
    expected.extend_from_slice(b"\0name");
    assert_eq!(addr.as_ptr().to_vec(), expected);
}

#[test]
fn lone_nul_is_an_abstract_name() {
    let mut expected = tag(libc::AF_UNIX);
    expected.push(0);
    let addr = Addr::unix(b"\0").unwrap_or_else(|e| panic!("refused: {:?}", e));
    assert_eq!(addr.len(), 3);
    assert_eq!(addr.as_ptr().to_vec(), expected);
}

#[test]
fn longest_pathname_fills_the_structure() {
    let path = vec![b'x'; PATH_CAPACITY - 1];
    let bytes = unix_bytes(&path);
    assert_eq!(bytes.len(), PATH_OFFSET + PATH_CAPACITY);
    assert_eq!(&bytes[PATH_OFFSET..PATH_OFFSET + 107], &path[..]);
    assert_eq!(bytes[PATH_OFFSET + 107], 0);
}

#[test]
fn pathname_of_full_capacity_is_refused() {
    let path = vec![b'x'; PATH_CAPACITY];
    assert_eq!(
        Addr::unix(&path).err(),
        Some(EncodeError::PathTooLong { len: 108, limit: 107 })
    );
}

#[test]
fn longer_pathname_is_refused() {
    let path = vec![b'x'; 300];
    assert_eq!(
        Addr::unix(&path).err(),
        Some(EncodeError::PathTooLong { len: 300, limit: 107 })
    );
}

#[test]
fn abstract_name_of_full_capacity_is_encoded() {
    let mut path = vec![b'y'; PATH_CAPACITY];
    path[0] = 0;
    let bytes = unix_bytes(&path);
    assert_eq!(bytes.len(), PATH_OFFSET + PATH_CAPACITY);
    assert_eq!(&bytes[PATH_OFFSET..], &path[..]);
}

#[test]
fn abstract_name_beyond_capacity_is_refused() {
    let mut path = vec![b'y'; PATH_CAPACITY + 1];
    path[0] = 0;
    assert_eq!(
        Addr::unix(&path).err(),
        Some(EncodeError::PathTooLong { len: 109, limit: 108 })
    );
}

#[test]
fn nul_inside_a_pathname_is_kept() {
    let mut expected = tag(libc::AF_UNIX);
    expected.extend_from_slice(b"a\0b");
    expected.push(0);
    assert_eq!(unix_bytes(b"a\0b"), expected);
}

#[test]
fn refusal_messages() {
    let pathname = EncodeError::PathTooLong { len: 108, limit: 107 };
    assert_eq!(pathname.message(), "path must be shorter than SUN_LEN");
    let abstract_name = EncodeError::PathTooLong { len: 109, limit: 108 };
    assert_eq!(abstract_name.message(), "path must be no longer than SUN_LEN");
}

#[test]
fn unix_in_writes_the_code_of_the_given_domain() {
    let addr = Addr::unix_in(&Domain::ipv6(), b"p").unwrap_or_else(|e| panic!("refused: {:?}", e));
    let mut expected = tag(libc::AF_INET6);
    expected.extend_from_slice(b"p\0");
    assert_eq!(addr.as_ptr().to_vec(), expected);
}

#[test]
fn ipv4_image_is_the_native_structure() {
    let endpoint = EndpointV4 { octets: [127, 0, 0, 1], port: 8080 };
    let addr = Addr::from_v4(&endpoint);
    assert_eq!(addr.len() as usize, INET_LEN);
    let mut expected = tag(libc::AF_INET);
    expected.extend_from_slice(&[0x1f, 0x90]);
    expected.extend_from_slice(&[127, 0, 0, 1]);
    expected.extend_from_slice(&[0; 8]);
    assert_eq!(addr.as_ptr().to_vec(), expected);
}

#[test]
fn ipv4_port_is_in_network_order() {
    let endpoint = EndpointV4 { octets: [10, 20, 30, 40], port: 0x0102 };
    let bytes = Addr::from_v4(&endpoint).as_ptr().to_vec();
    assert_eq!(bytes[2], 0x01);
    assert_eq!(bytes[3], 0x02);
    assert_eq!(&bytes[4..8], &[10, 20, 30, 40]);
}

#[test]
fn ipv4_extremes() {
    let endpoint = EndpointV4 { octets: [255, 255, 255, 255], port: 65535 };
    let bytes = Addr::from_v4(&endpoint).as_ptr().to_vec();
    assert_eq!(&bytes[2..8], &[255; 6]);
    assert_eq!(&bytes[8..], &[0; 8]);
    let zero = EndpointV4 { octets: [0; 4], port: 0 };
    let bytes = Addr::from_v4(&zero).as_ptr().to_vec();
    assert_eq!(&bytes[2..], &[0; 14]);
}

#[test]
fn ipv6_image_is_the_native_structure() {
    let mut octets = [0u8; 16];
    octets[15] = 1;
    let endpoint = EndpointV6 { octets, port: 443, flowinfo: 0x0102_0304, scope_id: 7 };
    let addr = Addr::from_v6(&endpoint);
    assert_eq!(addr.len() as usize, INET6_LEN);
    let mut expected = tag(libc::AF_INET6);
    expected.extend_from_slice(&[0x01, 0xbb]);
    expected.extend_from_slice(&0x0102_0304u32.to_ne_bytes());
    expected.extend_from_slice(&octets);
    expected.extend_from_slice(&7u32.to_ne_bytes());
    assert_eq!(addr.as_ptr().to_vec(), expected);
}

#[test]
fn ipv6_fields_do_not_mix() {
    let mut octets = [0u8; 16];
    for (i, o) in octets.iter_mut().enumerate() {
        *o = 0xa0 + i as u8;
    }
    let endpoint =
        EndpointV6 { octets, port: 0xfffe, flowinfo: 0xdead_beef, scope_id: 0x1234_5678 };
    let bytes = Addr::from_v6(&endpoint).as_ptr().to_vec();
    assert_eq!(&bytes[2..4], &[0xff, 0xfe]);
    assert_eq!(&bytes[4..8], &0xdead_beefu32.to_ne_bytes());
    assert_eq!(&bytes[8..24], &octets);
    assert_eq!(&bytes[24..28], &0x1234_5678u32.to_ne_bytes());
}

#[test]
fn inet_writes_the_code_of_the_given_domain() {
    let endpoint = EndpointV4 { octets: [1, 2, 3, 4], port: 5 };
    let bytes = Addr::inet(&Domain::unix(), &endpoint).as_ptr().to_vec();
    assert_eq!(&bytes[..2], &tag(libc::AF_UNIX)[..]);
    let v6 = EndpointV6 { octets: [9; 16], port: 5, flowinfo: 0, scope_id: 0 };
    let bytes = Addr::inet6(&Domain::ipv4(), &v6).as_ptr().to_vec();
    assert_eq!(&bytes[..2], &tag(libc::AF_INET)[..]);
}

#[test]
fn from_raw_parts_copies_the_bytes() {
    let bytes: Vec<u8> = (0..40).collect();
    let addr = Addr::from_raw_parts(&bytes);
    assert_eq!(addr.len(), 40);
    assert_eq!(addr.as_ptr(), &bytes[..]);
}

#[test]
fn from_raw_parts_takes_nothing_and_everything() {
    let empty = Addr::from_raw_parts(&[]);
    assert_eq!(empty.len(), 0);
    assert!(empty.as_ptr().is_empty());
    let full = vec![0xee; STORAGE_CAPACITY];
    let addr = Addr::from_raw_parts(&full);
    assert_eq!(addr.len() as usize, STORAGE_CAPACITY);
    assert_eq!(addr.as_ptr(), &full[..]);
}
