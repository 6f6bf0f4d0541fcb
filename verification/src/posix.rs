//! Creating a socket on a POSIX platform, one native call at a time.
//!
//! The caller makes the calls; this module decides which call comes next,
//! reads each result, and makes sure that a descriptor which was obtained
//! either comes out non-blocking and closed on exec, or is closed before the
//! failure is reported. A [`Creation`] is the state of that sequence:
//! [`Creation::action`] names the call to make, [`Creation::advance`] takes
//! what it returned. [`Socket::new`] runs the whole sequence over a function
//! that makes the calls.

use vstd::prelude::*;
use crate::native;
use crate::addr::{Addr, EncodeError};
use crate::socket::{is_encoding, Connect, Endpoint, Error, Socket};
use crate::tags::{Domain, Protocol, Type};

verus! {

/// What a native call returned, and the error code the platform held right
/// after it. The code means something only if the call failed.
#[derive(Clone, Copy, Debug, PartialEq, Eq)]
pub struct Reply {
    pub ret: i32,
    pub errno: i32,
}

/// A socket option, by level and name.
#[derive(Clone, Copy, Debug, PartialEq, Eq)]
pub struct SocketOption {
    pub level: i32,
    pub name: i32,
}

/// How the platform lets a socket be made closed on exec, and the flag that
/// makes it non-blocking.
#[derive(Clone, Copy, Debug, PartialEq, Eq)]
pub enum Plan {
    /// The creation call takes `cloexec` together with the socket kind, so
    /// the descriptor is never open without it.
    Atomic { cloexec: i32, nonblocking: i32 },
    /// `cloexec` is a descriptor flag, set right after creation. `silence`,
    /// where the platform has it, is the option that switches off the signal
    /// raised on a write to a closed peer.
    Staged { cloexec: i32, silence: Option<SocketOption>, nonblocking: i32 },
}

/// What to create: the codes of family, kind and protocol.
#[derive(Clone, Copy, Debug, PartialEq, Eq)]
pub struct Request {
    pub family: i32,
    pub kind: i32,
    pub protocol: i32,
}

/// The native call to make next.
#[derive(Clone, Copy, Debug, PartialEq, Eq)]
pub enum Action {
    /// `socket(family, kind, protocol)`.
    Open { family: i32, kind: i32, protocol: i32 },
    /// `fcntl(fd, F_GETFD)`.
    GetDescriptorFlags { fd: i32 },
    /// `fcntl(fd, F_SETFD, flags)`.
    SetDescriptorFlags { fd: i32, flags: i32 },
    /// `setsockopt(fd, level, name, &value, size of value)`.
    SetOption { fd: i32, level: i32, name: i32, value: i32 },
    /// `fcntl(fd, F_GETFL)`.
    GetStatus { fd: i32 },
    /// `fcntl(fd, F_SETFL, flags)`.
    SetStatus { fd: i32, flags: i32 },
    /// `close(fd)`, whose result does not matter.
    Close { fd: i32 },
    /// Nothing: the sequence has ended.
    Done,
}

/// How far the sequence has come. Each state but the last two waits for the
/// result of the call that [`Creation::action`] names.
#[derive(Clone, Copy, Debug, PartialEq, Eq)]
pub enum State {
    Opening,
    ReadingDescriptorFlags { fd: i32 },
    WritingDescriptorFlags { fd: i32, flags: i32 },
    Silencing { fd: i32, option: SocketOption },
    ReadingStatus { fd: i32 },
    WritingStatus { fd: i32, flags: i32 },
    /// A call failed with `errno` after the descriptor was obtained.
    Closing { fd: i32, errno: i32 },
    Ready { fd: i32 },
    Failed { errno: i32 },
}

/// The creation of one socket.
#[derive(Clone, Copy, Debug, PartialEq, Eq)]
pub struct Creation {
    pub plan: Plan,
    pub request: Request,
    pub state: State,
}

impl Request {
    /// The request for a socket of the given family and kind. Without a
    /// protocol the platform is left to choose, which it is told by 0.
    pub open spec fn of(domain: Domain, kind: Type, protocol: Option<Protocol>) -> Request {
        Request {
            family: domain.code(),
            kind: kind.code(),
            protocol: match protocol {
                Some(p) => p.code(),
                None => 0,
            },
        }
    }
}

impl Reply {
    /// A native call reports failure by returning -1.
    pub open spec fn failed(&self) -> bool {
        self.ret == -1
    }
}

impl Plan {
    /// The flag that makes a socket non-blocking.
    pub open spec fn nonblocking(&self) -> i32 {
        match *self {
            Plan::Atomic { nonblocking, .. } => nonblocking,
            Plan::Staged { nonblocking, .. } => nonblocking,
        }
    }

    /// The flag that makes a socket closed on exec.
    pub open spec fn cloexec(&self) -> i32 {
        match *self {
            Plan::Atomic { cloexec, .. } => cloexec,
            Plan::Staged { cloexec, .. } => cloexec,
        }
    }

    /// The plan for a platform whose creation call takes the close-on-exec
    /// flag, with the platform's own flags.
    pub fn atomic() -> (plan: Plan)
        ensures
            plan is Atomic,
    {
        Plan::Atomic { cloexec: native::sock_cloexec(), nonblocking: native::o_nonblock() }
    }

    /// The plan for a platform whose creation call takes no flags, with the
    /// platform's own flags and the given option to silence the signal.
    pub fn staged(silence: Option<SocketOption>) -> (plan: Plan)
        ensures
            plan matches Plan::Staged { silence: s, .. } && s == silence,
    {
        Plan::Staged {
            cloexec: native::fd_cloexec(),
            silence,
            nonblocking: native::o_nonblock(),
        }
    }
}

impl Creation {
    /// The creation that has made no call yet.
    pub open spec fn initial(plan: Plan, request: Request) -> Creation {
        Creation { plan, request, state: State::Opening }
    }

    /// Whether the sequence has ended, well or badly.
    pub open spec fn finished(&self) -> bool {
        self.state is Ready || self.state is Failed
    }

    /// A bound on the number of calls that are still to be made.
    pub open spec fn calls_left(&self) -> nat {
        match self.state {
            State::Opening => 7,
            State::ReadingDescriptorFlags { .. } => 6,
            State::WritingDescriptorFlags { .. } => 5,
            State::Silencing { .. } => 4,
            State::ReadingStatus { .. } => 3,
            State::WritingStatus { .. } => 2,
            State::Closing { .. } => 1,
            State::Ready { .. } => 0,
            State::Failed { .. } => 0,
        }
    }

    /// The call the current state waits for.
    pub open spec fn spec_action(&self) -> Action {
        match self.state {
            State::Opening => Action::Open {
                family: self.request.family,
                kind: match self.plan {
                    Plan::Atomic { cloexec, .. } => self.request.kind | cloexec,
                    Plan::Staged { .. } => self.request.kind,
                },
                protocol: self.request.protocol,
            },
            State::ReadingDescriptorFlags { fd } => Action::GetDescriptorFlags { fd },
            State::WritingDescriptorFlags { fd, flags } => Action::SetDescriptorFlags { fd, flags },
            State::Silencing { fd, option } => Action::SetOption {
                fd,
                level: option.level,
                name: option.name,
                value: 1,
            },
            State::ReadingStatus { fd } => Action::GetStatus { fd },
            State::WritingStatus { fd, flags } => Action::SetStatus { fd, flags },
            State::Closing { fd, .. } => Action::Close { fd },
            State::Ready { .. } => Action::Done,
            State::Failed { .. } => Action::Done,
        }
    }

    /// The state that follows when the awaited call returned `reply`.
    ///
    /// A failed creation call ends the sequence with its error. Any later
    /// failure leads to closing the descriptor and then ends the sequence
    /// with the error of the call that failed, whatever closing returned.
    pub open spec fn spec_advance(&self, reply: Reply) -> Creation {
        let state = match self.state {
            State::Opening => if reply.failed() {
                State::Failed { errno: reply.errno }
            } else {
                match self.plan {
                    Plan::Atomic { .. } => State::ReadingStatus { fd: reply.ret },
                    Plan::Staged { .. } => State::ReadingDescriptorFlags { fd: reply.ret },
                }
            },
            State::ReadingDescriptorFlags { fd } => if reply.failed() {
                State::Closing { fd, errno: reply.errno }
            } else {
                State::WritingDescriptorFlags { fd, flags: reply.ret | self.plan.cloexec() }
            },
            State::WritingDescriptorFlags { fd, .. } => if reply.failed() {
                State::Closing { fd, errno: reply.errno }
            } else {
                match self.plan {
                    Plan::Staged { silence: Some(option), .. } => State::Silencing { fd, option },
                    _ => State::ReadingStatus { fd },
                }
            },
            State::Silencing { fd, .. } => if reply.failed() {
                State::Closing { fd, errno: reply.errno }
            } else {
                State::ReadingStatus { fd }
            },
            State::ReadingStatus { fd } => if reply.failed() {
                State::Closing { fd, errno: reply.errno }
            } else {
                State::WritingStatus { fd, flags: reply.ret | self.plan.nonblocking() }
            },
            State::WritingStatus { fd, .. } => if reply.failed() {
                State::Closing { fd, errno: reply.errno }
            } else {
                State::Ready { fd }
            },
            State::Closing { errno, .. } => State::Failed { errno },
            State::Ready { fd } => State::Ready { fd },
            State::Failed { errno } => State::Failed { errno },
        };
        Creation { plan: self.plan, request: self.request, state }
    }

    /// What the sequence ended with: the socket that owns the descriptor,
    /// or the error of the call that failed. Nothing while calls are left.
    pub open spec fn spec_outcome(&self) -> Option<Result<i32, Error>> {
        match self.state {
            State::Ready { fd } => Some(Ok(fd)),
            State::Failed { errno } => Some(Err(Error::Os { code: errno })),
            _ => None,
        }
    }

    /// The state after the calls were answered with `replies`, in order.
    pub open spec fn run(&self, replies: Seq<Reply>) -> Creation
        decreases replies.len(),
    {
        if replies.len() == 0 {
            *self
        } else {
            self.run(replies.drop_last()).spec_advance(replies.last())
        }
    }

    /// The calls asked for while `replies` came in: the `i`-th is the one
    /// that `replies[i]` answers.
    pub open spec fn calls(&self, replies: Seq<Reply>) -> Seq<Action> {
        Seq::new(replies.len(), |i: int| self.run(replies.take(i)).spec_action())
    }

    /// Starts the creation of a socket of the given family and kind. Without
    /// a protocol the platform is left to choose, which it is told by 0.
    pub fn begin(plan: Plan, domain: Domain, kind: Type, protocol: Option<Protocol>) -> (creation:
        Creation)
        ensures
            creation == Creation::initial(plan, Request::of(domain, kind, protocol)),
    {
        let protocol = match protocol {
            Some(p) => p.code(),
            None => 0,
        };
        Creation {
            plan,
            request: Request { family: domain.code(), kind: kind.code(), protocol },
            state: State::Opening,
        }
    }

    /// The native call to make next, or [`Action::Done`] when none is left.
    pub fn action(&self) -> (action: Action)
        ensures
            action == self.spec_action(),
            action is Done <==> self.finished(),
    {
        match self.state {
            State::Opening => {
                let kind = match self.plan {
                    Plan::Atomic { cloexec, .. } => self.request.kind | cloexec,
                    Plan::Staged { .. } => self.request.kind,
                };
                Action::Open { family: self.request.family, kind, protocol: self.request.protocol }
            },
            State::ReadingDescriptorFlags { fd } => Action::GetDescriptorFlags { fd },
            State::WritingDescriptorFlags { fd, flags } => Action::SetDescriptorFlags { fd, flags },
            State::Silencing { fd, option } => Action::SetOption {
                fd,
                level: option.level,
                name: option.name,
                value: 1,
            },
            State::ReadingStatus { fd } => Action::GetStatus { fd },
            State::WritingStatus { fd, flags } => Action::SetStatus { fd, flags },
            State::Closing { fd, .. } => Action::Close { fd },
            State::Ready { .. } => Action::Done,
            State::Failed { .. } => Action::Done,
        }
    }

    /// Takes the result of the call that [`Creation::action`] named and
    /// moves on.
    pub fn advance(&mut self, reply: Reply)
        ensures
            *final(self) == old(self).spec_advance(reply),
            !old(self).finished() ==> final(self).calls_left() < old(self).calls_left(),
    {
        let failed = reply.ret == -1;
        let errno = reply.errno;
        let next = match self.state {
            State::Opening => if failed {
                State::Failed { errno }
            } else {
                match self.plan {
                    Plan::Atomic { .. } => State::ReadingStatus { fd: reply.ret },
                    Plan::Staged { .. } => State::ReadingDescriptorFlags { fd: reply.ret },
                }
            },
            State::ReadingDescriptorFlags { fd } => if failed {
                State::Closing { fd, errno }
            } else {
                let cloexec = match self.plan {
                    Plan::Atomic { cloexec, .. } => cloexec,
                    Plan::Staged { cloexec, .. } => cloexec,
                };
                State::WritingDescriptorFlags { fd, flags: reply.ret | cloexec }
            },
            State::WritingDescriptorFlags { fd, .. } => if failed {
                State::Closing { fd, errno }
            } else {
                match self.plan {
                    Plan::Staged { silence: Some(option), .. } => State::Silencing { fd, option },
                    _ => State::ReadingStatus { fd },
                }
            },
            State::Silencing { fd, .. } => if failed {
                State::Closing { fd, errno }
            } else {
                State::ReadingStatus { fd }
            },
            State::ReadingStatus { fd } => if failed {
                State::Closing { fd, errno }
            } else {
                let nonblocking = match self.plan {
                    Plan::Atomic { nonblocking, .. } => nonblocking,
                    Plan::Staged { nonblocking, .. } => nonblocking,
                };
                State::WritingStatus { fd, flags: reply.ret | nonblocking }
            },
            State::WritingStatus { fd, .. } => if failed {
                State::Closing { fd, errno }
            } else {
                State::Ready { fd }
            },
            State::Closing { errno: first, .. } => State::Failed { errno: first },
            State::Ready { fd } => State::Ready { fd },
            State::Failed { errno: first } => State::Failed { errno: first },
        };
        self.state = next;
    }

    /// What the sequence ended with: the socket that owns the new
    /// descriptor, or the error of the call that failed. `None` while calls
    /// are left to make.
    pub fn outcome(&self) -> (outcome: Option<Result<Socket<i32>, Error>>)
        ensures
            match outcome {
                Some(Ok(socket)) => self.spec_outcome() == Some(
                    Ok::<i32, Error>(socket.handle()),
                ) && socket.owned(),
                Some(Err(error)) => self.spec_outcome() == Some(Err::<i32, Error>(error)),
                None => self.spec_outcome() is None,
            },
    {
        match self.state {
            State::Ready { fd } => Some(Ok(Socket::from_raw(fd))),
            State::Failed { errno } => Some(Err(Error::Os { code: errno })),
            _ => None,
        }
    }
}

/// What the result of the native connect call means: -1 is a failure with
/// the platform's error code, anything else is success.
pub open spec fn spec_connected(reply: Reply) -> Result<(), Error> {
    if reply.failed() {
        Err(Error::Os { code: reply.errno })
    } else {
        Ok(())
    }
}

/// Reads the result of the native connect call: -1 is a failure, reported
/// with the platform's error code as it is, a connection in progress
/// included; anything else is success.
pub fn connected(reply: Reply) -> (result: Result<(), Error>)
    ensures
        result == spec_connected(reply),
{
    if reply.ret == -1 {
        Err(Error::Os { code: reply.errno })
    } else {
        Ok(())
    }
}

/// Whether `replies` are what `perform` answered, in order, to the calls of
/// the run that starts in `c`, none of them made after the run had ended.
pub open spec fn answered<F: Fn(Action) -> Reply>(
    perform: F,
    c: Creation,
    replies: Seq<Reply>,
) -> bool {
    forall|i: int|
        0 <= i < replies.len() ==> {
            &&& !(#[trigger] c.run(replies.take(i))).finished()
            &&& call_ensures(perform, (c.run(replies.take(i)).spec_action(),), replies[i])
        }
}

/// Whether `replies` are what `perform` answered to the calls of the run
/// that starts in `c`, and the run ends with the last of them and not
/// before.
pub open spec fn performed<F: Fn(Action) -> Reply>(
    perform: F,
    c: Creation,
    replies: Seq<Reply>,
) -> bool {
    answered(perform, c, replies) && c.run(replies).finished()
}

/// One more call, made while the run has not ended and answered by
/// `perform`, extends what was answered.
proof fn lemma_answered_push<F: Fn(Action) -> Reply>(
    perform: F,
    c: Creation,
    replies: Seq<Reply>,
    reply: Reply,
)
    requires
        answered(perform, c, replies),
        !c.run(replies).finished(),
        call_ensures(perform, (c.run(replies).spec_action(),), reply),
    ensures
        answered(perform, c, replies.push(reply)),
        c.run(replies.push(reply)) == c.run(replies).spec_advance(reply),
{
    let longer = replies.push(reply);
    assert(longer.drop_last() =~= replies);
    assert forall|i: int| 0 <= i < longer.len() implies {
        &&& !(#[trigger] c.run(longer.take(i))).finished()
        &&& call_ensures(perform, (c.run(longer.take(i)).spec_action(),), longer[i])
    } by {
        if i < replies.len() {
            assert(longer.take(i) =~= replies.take(i));
        } else {
            assert(longer.take(i) =~= replies);
        }
    }
}

/// Whether `result` is what the run of `c` over `replies` ends with: the
/// socket that owns the new descriptor, or the error of the call that
/// failed.
pub open spec fn is_outcome(
    result: Result<Socket<i32>, Error>,
    c: Creation,
    replies: Seq<Reply>,
) -> bool {
    match result {
        Ok(socket) => c.run(replies).spec_outcome() == Some(Ok::<i32, Error>(socket.handle()))
            && socket.owned(),
        Err(error) => c.run(replies).spec_outcome() == Some(Err::<i32, Error>(error)),
    }
}

impl Socket<i32> {
    /// Creates a non-blocking socket that child processes do not inherit.
    ///
    /// `perform` makes one native call and reports what it returned. It is
    /// asked for the calls of the plan, one after the other, each chosen by
    /// what the calls before it returned, never for [`Action::Done`], and
    /// for no call once the socket is ready or the creation has failed. The result is the socket, or
    /// the error of the call that failed, in which case a descriptor that
    /// had been obtained has been closed.
    pub fn new<F: Fn(Action) -> Reply>(
        plan: Plan,
        domain: Domain,
        type_: Type,
        protocol: Option<Protocol>,
        perform: F,
    ) -> (result: Result<Socket<i32>, Error>)
        requires
            forall|action: Action| !(action is Done) ==> call_requires(perform, (action,)),
        ensures
            exists|replies: Seq<Reply>|
                {
                    &&& #[trigger] performed(
                        perform,
                        Creation::initial(plan, Request::of(domain, type_, protocol)),
                        replies,
                    )
                    &&& is_outcome(
                        result,
                        Creation::initial(plan, Request::of(domain, type_, protocol)),
                        replies,
                    )
                },
    {
        let mut creation = Creation::begin(plan, domain, type_, protocol);
        let ghost start = creation;
        let ghost mut replies: Seq<Reply> = Seq::empty();
        loop
            invariant
                forall|action: Action| !(action is Done) ==> call_requires(perform, (action,)),
                start == Creation::initial(plan, Request::of(domain, type_, protocol)),
                creation == start.run(replies),
                answered(perform, start, replies),
            decreases creation.calls_left(),
        {
            match creation.outcome() {
                Some(result) => {
                    proof {
                        assert(performed(perform, start, replies));
                        assert(is_outcome(result, start, replies));
                    }
                    return result;
                },
                None => {},
            }
            let reply = perform(creation.action());
            proof {
                lemma_answered_push(perform, start, replies, reply);
                replies = replies.push(reply);
            }
            creation.advance(reply);
        }
    }

    /// Initiates a connection on this socket to the specified endpoint.
    ///
    /// The endpoint is encoded first. If it has no native form, that is
    /// the error and `perform` is not called. Otherwise `perform` makes the
    /// native connect call once and reports what it returned: -1 is a
    /// failure, reported with the platform's error code as it is, a
    /// connection in progress included.
    pub fn connect<F: Fn(Connect<i32>) -> Reply>(
        &self,
        endpoint: &Endpoint,
        perform: F,
    ) -> (result: Result<(), Error>)
        requires
            forall|call: Connect<i32>| call_requires(perform, (call,)),
        ensures
            !endpoint.encodable() ==> (result matches Err(Error::Encode(e)) && is_encoding(
                Err::<Addr, EncodeError>(e),
                *endpoint,
            )),
            endpoint.encodable() ==> exists|call: Connect<i32>, reply: Reply|
                {
                    &&& #[trigger] call_ensures(perform, (call,), reply)
                    &&& call.handle == self.handle()
                    &&& is_encoding(Ok::<Addr, EncodeError>(call.addr), *endpoint)
                    &&& result == spec_connected(reply)
                },
    {
        match self.connect_call(endpoint) {
            Ok(call) => {
                let ghost asked = call;
                let reply = perform(call);
                proof {
                    assert(call_ensures(perform, (asked,), reply));
                }
                connected(reply)
            },
            Err(error) => Err(error),
        }
    }
}

/// The state after `i` replies is one step on from the state after `i - 1`.
proof fn lemma_run_step(c: Creation, replies: Seq<Reply>, i: int)
    requires
        0 < i <= replies.len(),
    ensures
        c.run(replies.take(i)) == c.run(replies.take(i - 1)).spec_advance(replies[i - 1]),
{
    let prefix = replies.take(i);
    assert(prefix.drop_last() =~= replies.take(i - 1));
    assert(prefix.last() == replies[i - 1]);
}

/// Once the sequence has ended, further replies change nothing.
proof fn lemma_finished_stays(c: Creation, replies: Seq<Reply>, i: int, j: int)
    requires
        0 <= i <= j <= replies.len(),
        c.run(replies.take(i)).finished(),
    ensures
        c.run(replies.take(j)) == c.run(replies.take(i)),
    decreases j - i,
{
    if i < j {
        lemma_finished_stays(c, replies, i, j - 1);
        lemma_run_step(c, replies, j);
    }
}

/// The first seven steps of a run, spelled out, and the end of a run that is
/// no longer than that.
proof fn lemma_first_steps(c: Creation, replies: Seq<Reply>)
    ensures
        c.run(replies.take(0)) == c,
        c.run(replies.take(replies.len() as int)) == c.run(replies),
        1 <= replies.len() ==> c.run(replies.take(1)) == c.run(replies.take(0)).spec_advance(
            replies[0],
        ),
        2 <= replies.len() ==> c.run(replies.take(2)) == c.run(replies.take(1)).spec_advance(
            replies[1],
        ),
        3 <= replies.len() ==> c.run(replies.take(3)) == c.run(replies.take(2)).spec_advance(
            replies[2],
        ),
        4 <= replies.len() ==> c.run(replies.take(4)) == c.run(replies.take(3)).spec_advance(
            replies[3],
        ),
        5 <= replies.len() ==> c.run(replies.take(5)) == c.run(replies.take(4)).spec_advance(
            replies[4],
        ),
        6 <= replies.len() ==> c.run(replies.take(6)) == c.run(replies.take(5)).spec_advance(
            replies[5],
        ),
        7 <= replies.len() ==> c.run(replies.take(7)) == c.run(replies.take(6)).spec_advance(
            replies[6],
        ),
{
    assert(replies.take(0) =~= Seq::<Reply>::empty());
    assert(replies.take(replies.len() as int) =~= replies);
    if 1 <= replies.len() {
        lemma_run_step(c, replies, 1);
    }
    if 2 <= replies.len() {
        lemma_run_step(c, replies, 2);
    }
    if 3 <= replies.len() {
        lemma_run_step(c, replies, 3);
    }
    if 4 <= replies.len() {
        lemma_run_step(c, replies, 4);
    }
    if 5 <= replies.len() {
        lemma_run_step(c, replies, 5);
    }
    if 6 <= replies.len() {
        lemma_run_step(c, replies, 6);
    }
    if 7 <= replies.len() {
        lemma_run_step(c, replies, 7);
    }
}

/// A creation is over after seven replies at most, and what it asks for
/// from then on is nothing.
proof fn lemma_settled(plan: Plan, request: Request, replies: Seq<Reply>)
    ensures
        forall|i: int|
            7 <= i <= replies.len() ==> #[trigger] Creation::initial(plan, request).run(
                replies.take(i),
            ) == Creation::initial(plan, request).run(replies.take(7)),
        7 <= replies.len() ==> Creation::initial(plan, request).run(replies.take(7)).finished(),
{
    let c = Creation::initial(plan, request);
    lemma_first_steps(c, replies);
    assert forall|i: int| 7 <= i <= replies.len() implies #[trigger] c.run(replies.take(i))
        == c.run(replies.take(7)) by {
        lemma_finished_stays(c, replies, 7, i);
    }
}

/// Every creation ends: after seven replies, whatever they are, it is ready
/// or has failed.
pub proof fn law_creation_ends(plan: Plan, request: Request, replies: Seq<Reply>)
    requires
        replies.len() >= 7,
    ensures
        Creation::initial(plan, request).run(replies).finished(),
{
    let c = Creation::initial(plan, request);
    lemma_first_steps(c, replies);
    lemma_settled(plan, request, replies);
    assert(c.run(replies) == c.run(replies.take(replies.len() as int)));
}

/// Where the creation call takes the close-on-exec flag, a socket is ready
/// only after exactly these calls succeeded: the creation call, with the
/// flag beside the kind, the reading of the status flags, and the writing of
/// them with the non-blocking flag added. Nothing is closed, and the
/// descriptor of the ready socket is the one the creation call returned.
pub proof fn law_atomic_success(
    cloexec: i32,
    nonblocking: i32,
    request: Request,
    replies: Seq<Reply>,
)
    requires
        Creation::initial(Plan::Atomic { cloexec, nonblocking }, request).run(
            replies,
        ).state is Ready,
    ensures
        replies.len() >= 3,
        !replies[0].failed() && !replies[1].failed() && !replies[2].failed(),
        Creation::initial(Plan::Atomic { cloexec, nonblocking }, request).run(replies).state == (
        State::Ready { fd: replies[0].ret }),
        Creation::initial(Plan::Atomic { cloexec, nonblocking }, request).calls(replies).take(3)
            == seq![
            Action::Open {
                family: request.family,
                kind: request.kind | cloexec,
                protocol: request.protocol,
            },
            Action::GetStatus { fd: replies[0].ret },
            Action::SetStatus { fd: replies[0].ret, flags: replies[1].ret | nonblocking },
        ],
        forall|i: int|
            3 <= i < replies.len() ==> #[trigger] Creation::initial(
                Plan::Atomic { cloexec, nonblocking },
                request,
            ).calls(replies)[i] is Done,
        (request.kind | cloexec) & cloexec == cloexec,
        (replies[1].ret | nonblocking) & nonblocking == nonblocking,
{
    let plan = Plan::Atomic { cloexec, nonblocking };
    let c = Creation::initial(plan, request);
    lemma_first_steps(c, replies);
    lemma_settled(plan, request, replies);
    assert(replies.len() >= 3);
    assert(c.run(replies.take(3)).state == (State::Ready { fd: replies[0].ret }));
    assert(c.calls(replies).take(3) =~= seq![
        Action::Open {
            family: request.family,
            kind: request.kind | cloexec,
            protocol: request.protocol,
        },
        Action::GetStatus { fd: replies[0].ret },
        Action::SetStatus { fd: replies[0].ret, flags: replies[1].ret | nonblocking },
    ]);
    assert forall|i: int| 3 <= i < replies.len() implies #[trigger] c.calls(replies)[i] is Done by {
        lemma_finished_stays(c, replies, 3, i);
    }
    let kind = request.kind;
    let status = replies[1].ret;
    assert((kind | cloexec) & cloexec == cloexec) by (bit_vector);
    assert((status | nonblocking) & nonblocking == nonblocking) by (bit_vector);
}

/// The calls of a successful creation where close-on-exec is a descriptor
/// flag: the creation call, the reading and the writing of the descriptor
/// flags with close-on-exec added, the silencing of the signal where the
/// plan names an option for it, and the reading and the writing of the
/// status flags with the non-blocking flag added.
pub open spec fn staged_calls(
    cloexec: i32,
    silence: Option<SocketOption>,
    nonblocking: i32,
    request: Request,
    replies: Seq<Reply>,
) -> Seq<Action> {
    let fd = replies[0].ret;
    let head = seq![
        Action::Open { family: request.family, kind: request.kind, protocol: request.protocol },
        Action::GetDescriptorFlags { fd },
        Action::SetDescriptorFlags { fd, flags: replies[1].ret | cloexec },
    ];
    match silence {
        Some(option) => head + seq![
            Action::SetOption { fd, level: option.level, name: option.name, value: 1 },
            Action::GetStatus { fd },
            Action::SetStatus { fd, flags: replies[4].ret | nonblocking },
        ],
        None => head + seq![
            Action::GetStatus { fd },
            Action::SetStatus { fd, flags: replies[3].ret | nonblocking },
        ],
    }
}

/// Where close-on-exec is a descriptor flag, a socket is ready only after
/// exactly the calls of [`staged_calls`] succeeded, close-on-exec first.
/// Nothing is closed, and the descriptor of the ready socket is the one the
/// creation call returned.
pub proof fn law_staged_success(
    cloexec: i32,
    silence: Option<SocketOption>,
    nonblocking: i32,
    request: Request,
    replies: Seq<Reply>,
)
    requires
        Creation::initial(Plan::Staged { cloexec, silence, nonblocking }, request).run(
            replies,
        ).state is Ready,
    ensures
        replies.len() >= staged_calls(cloexec, silence, nonblocking, request, replies).len(),
        staged_calls(cloexec, silence, nonblocking, request, replies).len() == (if silence is Some {
            6int
        } else {
            5int
        }),
        forall|i: int|
            0 <= i < staged_calls(cloexec, silence, nonblocking, request, replies).len() ==> !(
            #[trigger] replies[i]).failed(),
        Creation::initial(Plan::Staged { cloexec, silence, nonblocking }, request).run(
            replies,
        ).state == (State::Ready { fd: replies[0].ret }),
        Creation::initial(Plan::Staged { cloexec, silence, nonblocking }, request).calls(
            replies,
        ).take(staged_calls(cloexec, silence, nonblocking, request, replies).len() as int)
            == staged_calls(cloexec, silence, nonblocking, request, replies),
        forall|i: int|
            staged_calls(cloexec, silence, nonblocking, request, replies).len() <= i
                < replies.len() ==> #[trigger] Creation::initial(
                Plan::Staged { cloexec, silence, nonblocking },
                request,
            ).calls(replies)[i] is Done,
        (replies[1].ret | cloexec) & cloexec == cloexec,
        forall|status: i32| (status | nonblocking) & nonblocking == nonblocking,
{
    let plan = Plan::Staged { cloexec, silence, nonblocking };
    let c = Creation::initial(plan, request);
    let script = staged_calls(cloexec, silence, nonblocking, request, replies);
    let n = script.len() as int;
    lemma_first_steps(c, replies);
    lemma_settled(plan, request, replies);
    assert(replies.len() >= n);
    assert(c.run(replies.take(n)).state == (State::Ready { fd: replies[0].ret }));
    assert(c.calls(replies).take(n) =~= script);
    assert forall|i: int| n <= i < replies.len() implies #[trigger] c.calls(replies)[i] is Done by {
        lemma_finished_stays(c, replies, n, i);
    }
    let flags = replies[1].ret;
    assert((flags | cloexec) & cloexec == cloexec) by (bit_vector);
    assert forall|status: i32| (status | nonblocking) & nonblocking == nonblocking by {
        assert((status | nonblocking) & nonblocking == nonblocking) by (bit_vector);
    }
}

/// Whether, in the run of `c` over `replies`, the `k`-th call is the one
/// close of the run: every call before the one just before it succeeded,
/// that one failed, the `k`-th call closes the descriptor that the creation
/// call returned, no other call closes anything, and the run ends with the
/// error of the call that failed.
pub open spec fn closes_at(c: Creation, replies: Seq<Reply>, k: int) -> bool {
    &&& 2 <= k < replies.len()
    &&& forall|j: int| 0 <= j < k - 1 ==> !(#[trigger] replies[j]).failed()
    &&& replies[k - 1].failed()
    &&& c.calls(replies)[k] == Action::Close { fd: replies[0].ret }
    &&& forall|j: int|
        0 <= j < replies.len() && j != k ==> !(#[trigger] c.calls(replies)[j] is Close)
    &&& forall|j: int| k < j < replies.len() ==> #[trigger] c.calls(replies)[j] is Done
    &&& c.run(replies).state == State::Failed { errno: replies[k - 1].errno }
}

/// No descriptor is left open by a creation that failed. If the creation
/// call itself failed there is none, no further call is made, and the error
/// is its own. If a later call failed, the descriptor is closed exactly
/// once, right after that call, and the error is that call's, whatever
/// closing returned.
pub proof fn law_failure_closes_descriptor(plan: Plan, request: Request, replies: Seq<Reply>)
    requires
        Creation::initial(plan, request).run(replies).state is Failed,
    ensures
        replies.len() >= 1,
        replies[0].failed() ==> {
            &&& Creation::initial(plan, request).run(replies).state == State::Failed {
                errno: replies[0].errno,
            }
            &&& forall|j: int|
                1 <= j < replies.len() ==> #[trigger] Creation::initial(plan, request).calls(
                    replies,
                )[j] is Done
        },
        !replies[0].failed() ==> exists|k: int| #[trigger]
            closes_at(Creation::initial(plan, request), replies, k),
{
    let c = Creation::initial(plan, request);
    lemma_first_steps(c, replies);
    lemma_settled(plan, request, replies);
    if replies[0].failed() {
        assert forall|j: int| 1 <= j < replies.len() implies #[trigger] c.calls(replies)[j]
            is Done by {
            lemma_finished_stays(c, replies, 1, j);
        }
    } else {
        let k: int = if replies[1].failed() {
            2
        } else if replies[2].failed() {
            3
        } else if replies[3].failed() {
            4
        } else if replies[4].failed() {
            5
        } else {
            6
        };
        assert(2 <= k < replies.len());
        assert(c.run(replies.take(k + 1)).finished());
        assert forall|j: int| k < j < replies.len() implies #[trigger] c.calls(replies)[j]
            is Done by {
            lemma_finished_stays(c, replies, k + 1, j);
        }
        assert(closes_at(c, replies, k));
    }
}

/// A creation that was carried out took between one and seven calls.
pub proof fn law_creation_is_short<F: Fn(Action) -> Reply>(
    perform: F,
    plan: Plan,
    request: Request,
    replies: Seq<Reply>,
)
    requires
        performed(perform, Creation::initial(plan, request), replies),
    ensures
        1 <= replies.len() <= 7,
{
    let c = Creation::initial(plan, request);
    lemma_first_steps(c, replies);
    lemma_settled(plan, request, replies);
    if replies.len() > 7 {
        assert(c.run(replies.take(7)).finished());
    }
}

} // verus!
