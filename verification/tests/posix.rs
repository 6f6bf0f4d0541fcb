use rawsocket::posix::{connected, Action, Creation, Plan, Reply, Request, SocketOption, State};
use rawsocket::socket::Error;
use rawsocket::tags::{Domain, Protocol, Type};

const CLOEXEC: i32 = 0o2000000;
const NONBLOCK: i32 = 0o4000;

fn ok(ret: i32) -> Reply {
    Reply { ret, errno: 0 }
}

fn fail(errno: i32) -> Reply {
    Reply { ret: -1, errno }
}

fn atomic() -> Creation {
    let plan = Plan::Atomic { cloexec: CLOEXEC, nonblocking: NONBLOCK };
    Creation::begin(plan, Domain::ipv4(), Type::stream(), Some(Protocol::tcp()))
}

fn staged(silence: Option<SocketOption>) -> Creation {
    let plan = Plan::Staged { cloexec: 1, silence, nonblocking: 4 };
    Creation::begin(plan, Domain::ipv6(), Type::stream(), None)
}

fn handle_of(creation: &Creation) -> Option<Result<i32, Error>> {
    creation.outcome().map(|r| r.map(|s| s.as_raw()))
}

#[test]
fn begin_takes_the_codes_of_the_tags() {
    let creation = atomic();
    assert_eq!(
        creation.request,
        Request { family: libc::AF_INET, kind: libc::SOCK_STREAM, protocol: 6 }
    );
    assert_eq!(creation.state, State::Opening);
    assert!(creation.outcome().is_none());
}

#[test]
fn begin_without_protocol_asks_for_the_default() {
    let creation = staged(None);
    assert_eq!(
        creation.request,
        Request { family: libc::AF_INET6, kind: libc::SOCK_STREAM, protocol: 0 }
    );
}

#[test]
fn native_plans_carry_the_platforms_flags() {
    assert_eq!(
        Plan::atomic(),
        Plan::Atomic { cloexec: libc::SOCK_CLOEXEC, nonblocking: libc::O_NONBLOCK }
    );
    let option = SocketOption { level: 1, name: 2 };
    assert_eq!(
        Plan::staged(Some(option)),
        Plan::Staged {
            cloexec: libc::FD_CLOEXEC,
            silence: Some(option),
            nonblocking: libc::O_NONBLOCK,
        }
    );
    assert_eq!(
        Plan::staged(None),
        Plan::Staged { cloexec: libc::FD_CLOEXEC, silence: None, nonblocking: libc::O_NONBLOCK }
    );
}

#[test]
fn atomic_creation_succeeds_in_three_calls() {
    let mut creation = atomic();
    assert_eq!(
        creation.action(),
        Action::Open { family: libc::AF_INET, kind: libc::SOCK_STREAM | CLOEXEC, protocol: 6 }
    );
    creation.advance(ok(9));
    assert_eq!(creation.action(), Action::GetStatus { fd: 9 });
    assert!(creation.outcome().is_none());
    creation.advance(ok(0o2));
    assert_eq!(creation.action(), Action::SetStatus { fd: 9, flags: 0o2 | NONBLOCK });
    creation.advance(ok(0));
    assert_eq!(creation.action(), Action::Done);
    assert_eq!(creation.state, State::Ready { fd: 9 });
    assert_eq!(handle_of(&creation), Some(Ok(9)));
}

#[test]
fn ready_socket_owns_the_descriptor() {
    let mut creation = atomic();
    creation.advance(ok(4));
    creation.advance(ok(0));
    creation.advance(ok(0));
    match creation.outcome() {
        Some(Ok(mut socket)) => {
            assert_eq!(socket.as_raw(), 4);
            assert_eq!(socket.teardown(), Some(4));
        }
        _ => panic!("not ready"),
    }
}

#[test]
fn failed_creation_call_ends_with_its_error() {
    let mut creation = atomic();
    creation.advance(fail(24));
    assert_eq!(creation.state, State::Failed { errno: 24 });
    assert_eq!(creation.action(), Action::Done);
    assert_eq!(handle_of(&creation), Some(Err(Error::Os { code: 24 })));
}

#[test]
fn failure_after_creation_closes_the_descriptor() {
    let mut creation = atomic();
    creation.advance(ok(9));
    creation.advance(fail(9999));
    assert_eq!(creation.state, State::Closing { fd: 9, errno: 9999 });
    assert_eq!(creation.action(), Action::Close { fd: 9 });
    assert!(creation.outcome().is_none());
    creation.advance(ok(0));
    assert_eq!(creation.action(), Action::Done);
    assert_eq!(handle_of(&creation), Some(Err(Error::Os { code: 9999 })));
}

#[test]
fn failure_of_the_last_call_closes_the_descriptor() {
    let mut creation = atomic();
    creation.advance(ok(9));
    creation.advance(ok(0));
    creation.advance(fail(22));
    assert_eq!(creation.action(), Action::Close { fd: 9 });
    creation.advance(ok(0));
    assert_eq!(handle_of(&creation), Some(Err(Error::Os { code: 22 })));
}

#[test]
fn a_failed_close_does_not_change_the_error() {
    let mut creation = atomic();
    creation.advance(ok(3));
    creation.advance(fail(13));
    creation.advance(fail(5));
    assert_eq!(creation.state, State::Failed { errno: 13 });
}

#[test]
fn replies_after_the_end_change_nothing() {
    let mut creation = atomic();
    creation.advance(ok(9));
    creation.advance(ok(0));
    creation.advance(ok(0));
    creation.advance(fail(1));
    creation.advance(ok(77));
    assert_eq!(creation.state, State::Ready { fd: 9 });

    let mut failed = atomic();
    failed.advance(fail(2));
    failed.advance(ok(8));
    assert_eq!(failed.state, State::Failed { errno: 2 });
}

#[test]
fn only_minus_one_is_a_failure() {
    let mut creation = atomic();
    creation.advance(Reply { ret: 0, errno: 11 });
    assert_eq!(creation.state, State::ReadingStatus { fd: 0 });
    creation.advance(Reply { ret: -2, errno: 11 });
    assert_eq!(creation.state, State::WritingStatus { fd: 0, flags: -2 | NONBLOCK });
}

#[test]
fn staged_creation_sets_close_on_exec_first() {
    let mut creation = staged(None);
    assert_eq!(
        creation.action(),
        Action::Open { family: libc::AF_INET6, kind: libc::SOCK_STREAM, protocol: 0 }
    );
    creation.advance(ok(6));
    assert_eq!(creation.action(), Action::GetDescriptorFlags { fd: 6 });
    creation.advance(ok(8));
    assert_eq!(creation.action(), Action::SetDescriptorFlags { fd: 6, flags: 9 });
    creation.advance(ok(0));
    assert_eq!(creation.action(), Action::GetStatus { fd: 6 });
    creation.advance(ok(2));
    assert_eq!(creation.action(), Action::SetStatus { fd: 6, flags: 6 });
    creation.advance(ok(0));
    assert_eq!(creation.action(), Action::Done);
    assert_eq!(handle_of(&creation), Some(Ok(6)));
}

#[test]
fn staged_creation_silences_the_signal_where_asked() {
    let option = SocketOption { level: 0xffff, name: 0x1022 };
    let mut creation = staged(Some(option));
    creation.advance(ok(6));
    creation.advance(ok(0));
    creation.advance(ok(0));
    assert_eq!(
        creation.action(),
        Action::SetOption { fd: 6, level: 0xffff, name: 0x1022, value: 1 }
    );
    creation.advance(ok(0));
    assert_eq!(creation.action(), Action::GetStatus { fd: 6 });
    creation.advance(ok(0));
    assert_eq!(creation.action(), Action::SetStatus { fd: 6, flags: 4 });
    creation.advance(ok(0));
    assert_eq!(handle_of(&creation), Some(Ok(6)));
}

#[test]
fn staged_failures_close_the_descriptor_at_every_stage() {
    let option = SocketOption { level: 1, name: 2 };
    for failing in 1..6 {
        let mut creation = staged(Some(option));
        creation.advance(ok(30));
        for _ in 1..failing {
            creation.advance(ok(0));
        }
        creation.advance(fail(100 + failing));
        assert_eq!(creation.action(), Action::Close { fd: 30 });
        creation.advance(ok(0));
        assert_eq!(creation.action(), Action::Done);
        assert_eq!(handle_of(&creation), Some(Err(Error::Os { code: 100 + failing })));
    }
}

#[test]
fn staged_failed_creation_call_closes_nothing() {
    let mut creation = staged(None);
    creation.advance(fail(97));
    assert_eq!(creation.action(), Action::Done);
    assert_eq!(handle_of(&creation), Some(Err(Error::Os { code: 97 })));
}

#[test]
fn every_creation_ends_within_seven_replies() {
    let option = SocketOption { level: 1, name: 2 };
    let replies = [ok(3), ok(0), ok(0), ok(0), ok(0), fail(5), ok(0)];
    let mut creation = staged(Some(option));
    let mut closes = 0;
    for reply in replies {
        if let Action::Close { fd } = creation.action() {
            assert_eq!(fd, 3);
            closes += 1;
        }
        creation.advance(reply);
    }
    assert_eq!(closes, 1);
    assert_eq!(creation.state, State::Failed { errno: 5 });
}

#[test]
fn connect_result_is_read_by_minus_one() {
    assert_eq!(connected(ok(0)), Ok(()));
    assert_eq!(connected(Reply { ret: 0, errno: 115 }), Ok(()));
    assert_eq!(connected(fail(111)), Err(Error::Os { code: 111 }));
    assert_eq!(connected(fail(115)), Err(Error::Os { code: 115 }));
}
