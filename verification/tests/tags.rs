use rawsocket::tags::{Domain, Protocol, Type};

#[test]
fn domain_codes_are_the_platforms() {
    assert_eq!(Domain::ipv4().code(), libc::AF_INET);
    assert_eq!(Domain::ipv6().code(), libc::AF_INET6);
    assert_eq!(Domain::unix().code(), libc::AF_UNIX);
}

#[test]
fn domains_are_told_apart() {
    assert_ne!(Domain::ipv4().code(), Domain::ipv6().code());
    assert_ne!(Domain::ipv4().code(), Domain::unix().code());
    assert_ne!(Domain::ipv6().code(), Domain::unix().code());
}

#[test]
fn stream_code_is_the_platforms() {
    assert_eq!(Type::stream().code(), libc::SOCK_STREAM);
}

#[test]
fn tcp_is_protocol_six() {
    assert_eq!(Protocol::tcp().code(), 6);
    assert_eq!(Protocol::tcp().code(), libc::IPPROTO_TCP);
}
