use rawsocket::addr::{Addr, EncodeError, EndpointV4, EndpointV6, PATH_CAPACITY};
use rawsocket::socket::{Endpoint, Error, Socket};

#[test]
fn a_new_socket_owns_its_handle() {
    let mut socket = Socket::from_raw(7);
    assert_eq!(socket.as_raw(), 7);
    assert_eq!(socket.teardown(), Some(7));
}

#[test]
fn teardown_closes_once() {
    let mut socket = Socket::from_raw(11usize);
    assert_eq!(socket.teardown(), Some(11));
    assert_eq!(socket.teardown(), None);
    assert_eq!(socket.teardown(), None);
    assert_eq!(socket.as_raw(), 11);
}

#[test]
fn a_handle_given_away_is_not_closed() {
    let mut socket = Socket::from_raw(5);
    assert_eq!(socket.release(), 5);
    assert_eq!(socket.teardown(), None);
}

#[test]
fn giving_away_keeps_the_handle_readable() {
    let mut socket = Socket::from_raw(-3);
    assert_eq!(socket.release(), -3);
    assert_eq!(socket.as_raw(), -3);
    assert_eq!(socket.release(), -3);
    assert_eq!(socket.teardown(), None);
}

#[test]
fn endpoints_encode_as_their_addresses() {
    let v4 = EndpointV4 { octets: [192, 168, 1, 9], port: 22 };
    let encoded = Endpoint::V4(v4).encode().unwrap_or_else(|e| panic!("refused: {:?}", e));
    assert_eq!(encoded.as_ptr(), Addr::from_v4(&v4).as_ptr());

    let v6 = EndpointV6 { octets: [3; 16], port: 22, flowinfo: 1, scope_id: 2 };
    let encoded = Endpoint::V6(v6).encode().unwrap_or_else(|e| panic!("refused: {:?}", e));
    assert_eq!(encoded.as_ptr(), Addr::from_v6(&v6).as_ptr());

    let encoded = Endpoint::Unix(b"/run/x".to_vec())
        .encode()
        .unwrap_or_else(|e| panic!("refused: {:?}", e));
    let direct = Addr::unix(b"/run/x").unwrap_or_else(|e| panic!("refused: {:?}", e));
    assert_eq!(encoded.as_ptr(), direct.as_ptr());
}

#[test]
fn connect_call_names_the_handle_and_the_address() {
    let socket = Socket::from_raw(42);
    let v4 = EndpointV4 { octets: [127, 0, 0, 1], port: 9000 };
    match socket.connect_call(&Endpoint::V4(v4)) {
        Ok(call) => {
            assert_eq!(call.handle, 42);
            assert_eq!(call.addr.len(), 16);
            assert_eq!(call.addr.as_ptr(), Addr::from_v4(&v4).as_ptr());
        }
        Err(e) => panic!("refused: {:?}", e),
    }
}

#[test]
fn connect_to_a_path_of_full_capacity_makes_no_call() {
    let mut socket = Socket::from_raw(42);
    let path = vec![b'p'; PATH_CAPACITY];
    let refused = socket.connect_call(&Endpoint::Unix(path)).err();
    let refusal = EncodeError::PathTooLong { len: PATH_CAPACITY, limit: PATH_CAPACITY - 1 };
    assert_eq!(refused, Some(Error::Encode(refusal)));
    assert_eq!(socket.teardown(), Some(42));
    assert_eq!(socket.teardown(), None);
}

#[test]
fn connect_to_an_abstract_name_of_full_capacity_is_a_call() {
    let socket = Socket::from_raw(1usize);
    let mut path = vec![b'p'; PATH_CAPACITY];
    path[0] = 0;
    match socket.connect_call(&Endpoint::Unix(path.clone())) {
        Ok(call) => {
            assert_eq!(call.handle, 1);
            assert_eq!(&call.addr.as_ptr()[2..], &path[..]);
        }
        Err(e) => panic!("refused: {:?}", e),
    }
}
