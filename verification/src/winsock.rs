//! Creating a socket on Windows, one native call at a time.
//!
//! As on POSIX the caller makes the calls and this module decides which one
//! comes next. The sequence starts by asking for the sockets subsystem to be
//! initialised, so that no socket is created before it is; it then creates
//! the socket for overlapped operation, takes it out of what child processes
//! inherit, and makes it non-blocking. A socket that was obtained is ready
//! at the end, or closed before the failure is reported. [`Socket::new`]
//! runs the whole sequence over a function that makes the calls.

use vstd::prelude::*;
use crate::addr::{Addr, EncodeError};
use crate::socket::{is_encoding, Connect, Endpoint, Error, Socket};
use crate::tags::{Domain, Protocol, Type};

verus! {

/// The flag of the creation call that lets the socket work overlapped.
pub const WSA_FLAG_OVERLAPPED: u32 = 0x01;

/// The handle flag that makes child processes inherit a handle.
pub const HANDLE_FLAG_INHERIT: u32 = 0x0000_0001;

/// What the creation call returns when it fails.
pub const INVALID_SOCKET: usize = usize::MAX;

/// What a native call returned. `socket` is read after the creation call
/// only, `status` after the others, and `error`, the platform's error code
/// for the call, only if the call failed.
#[derive(Clone, Copy, Debug, PartialEq, Eq)]
pub struct Reply {
    pub socket: usize,
    pub status: i32,
    pub error: i32,
}

/// What to create: the codes of family, kind and protocol.
#[derive(Clone, Copy, Debug, PartialEq, Eq)]
pub struct Request {
    pub family: i32,
    pub kind: i32,
    pub protocol: i32,
}

/// The native call to make next.
#[derive(Clone, Copy, Debug, PartialEq, Eq)]
pub enum Action {
    /// Initialise the sockets subsystem, once for the process. The reply is
    /// not read.
    Initialize,
    /// `WSASocketW(family, kind, protocol, null, 0, flags)`. Its error code
    /// is that of `WSAGetLastError`.
    Open { family: i32, kind: i32, protocol: i32, flags: u32 },
    /// `SetHandleInformation(socket, mask, flags)`, which fails by returning
    /// 0.
    SetHandleFlags { socket: usize, mask: u32, flags: u32 },
    /// `ioctlsocket(socket, FIONBIO, &mut enable)`, which succeeds by
    /// returning 0.
    SetNonBlocking { socket: usize, enable: u32 },
    /// `closesocket(socket)`, whose result does not matter.
    Close { socket: usize },
    /// Nothing: the sequence has ended.
    Done,
}

/// How far the sequence has come. Each state but the last two waits for the
/// result of the call that [`Creation::action`] names.
#[derive(Clone, Copy, Debug, PartialEq, Eq)]
pub enum State {
    Initializing,
    Opening,
    Disinheriting { socket: usize },
    Unblocking { socket: usize },
    /// A call failed with `error` after the socket was obtained.
    Closing { socket: usize, error: i32 },
    Ready { socket: usize },
    Failed { error: i32 },
}

/// The creation of one socket.
#[derive(Clone, Copy, Debug, PartialEq, Eq)]
pub struct Creation {
    pub request: Request,
    pub state: State,
}

impl Request {
    /// The request for a socket of the given family and kind. Without a
    /// protocol the platform is left to choose, which it is told by 0.
    pub open spec fn of(domain: Domain, kind: Type, protocol: Option<Protocol>) -> Request {
        Request {
            family: domain.code(),
            kind: kind.code(),
            protocol: match protocol {
                Some(p) => p.code(),
                None => 0,
            },
        }
    }
}

impl Creation {
    /// The creation that has made no call yet.
    pub open spec fn initial(request: Request) -> Creation {
        Creation { request, state: State::Initializing }
    }

    /// Whether the sequence has ended, well or badly.
    pub open spec fn finished(&self) -> bool {
        self.state is Ready || self.state is Failed
    }

    /// A bound on the number of calls that are still to be made.
    pub open spec fn calls_left(&self) -> nat {
        match self.state {
            State::Initializing => 5,
            State::Opening => 4,
            State::Disinheriting { .. } => 3,
            State::Unblocking { .. } => 2,
            State::Closing { .. } => 1,
            State::Ready { .. } => 0,
            State::Failed { .. } => 0,
        }
    }

    /// The call the current state waits for.
    pub open spec fn spec_action(&self) -> Action {
        match self.state {
            State::Initializing => Action::Initialize,
            State::Opening => Action::Open {
                family: self.request.family,
                kind: self.request.kind,
                protocol: self.request.protocol,
                flags: WSA_FLAG_OVERLAPPED,
            },
            State::Disinheriting { socket } => Action::SetHandleFlags {
                socket,
                mask: HANDLE_FLAG_INHERIT,
                flags: 0,
            },
            State::Unblocking { socket } => Action::SetNonBlocking { socket, enable: 1 },
            State::Closing { socket, .. } => Action::Close { socket },
            State::Ready { .. } => Action::Done,
            State::Failed { .. } => Action::Done,
        }
    }

    /// Whether the awaited call failed, going by `reply`: the creation call
    /// by returning no socket, the change of the handle flags by returning
    /// zero, the switch to non-blocking by returning anything else.
    /// Initialising, closing and doing nothing do not fail.
    pub open spec fn fails(&self, reply: Reply) -> bool {
        match self.state {
            State::Opening => reply.socket == INVALID_SOCKET,
            State::Disinheriting { .. } => reply.status == 0,
            State::Unblocking { .. } => reply.status != 0,
            _ => false,
        }
    }

    /// The state that follows when the awaited call returned `reply`.
    ///
    /// A failed creation call ends the sequence with its error. Any later
    /// failure leads to closing the socket and then ends the sequence with
    /// the error of the call that failed, whatever closing returned.
    pub open spec fn spec_advance(&self, reply: Reply) -> Creation {
        let state = match self.state {
            State::Initializing => State::Opening,
            State::Opening => if self.fails(reply) {
                State::Failed { error: reply.error }
            } else {
                State::Disinheriting { socket: reply.socket }
            },
            State::Disinheriting { socket } => if self.fails(reply) {
                State::Closing { socket, error: reply.error }
            } else {
                State::Unblocking { socket }
            },
            State::Unblocking { socket } => if self.fails(reply) {
                State::Closing { socket, error: reply.error }
            } else {
                State::Ready { socket }
            },
            State::Closing { error, .. } => State::Failed { error },
            State::Ready { socket } => State::Ready { socket },
            State::Failed { error } => State::Failed { error },
        };
        Creation { request: self.request, state }
    }

    /// What the sequence ended with: the socket, or the error of the call
    /// that failed. Nothing while calls are left.
    pub open spec fn spec_outcome(&self) -> Option<Result<usize, Error>> {
        match self.state {
            State::Ready { socket } => Some(Ok(socket)),
            State::Failed { error } => Some(Err(Error::Os { code: error })),
            _ => None,
        }
    }

    /// The state after the calls were answered with `replies`, in order.
    pub open spec fn run(&self, replies: Seq<Reply>) -> Creation
        decreases replies.len(),
    {
        if replies.len() == 0 {
            *self
        } else {
            self.run(replies.drop_last()).spec_advance(replies.last())
        }
    }

    /// The calls asked for while `replies` came in: the `i`-th is the one
    /// that `replies[i]` answers.
    pub open spec fn calls(&self, replies: Seq<Reply>) -> Seq<Action> {
        Seq::new(replies.len(), |i: int| self.run(replies.take(i)).spec_action())
    }

    /// Starts the creation of a socket of the given family and kind. Without
    /// a protocol the platform is left to choose, which it is told by 0.
    pub fn begin(domain: Domain, kind: Type, protocol: Option<Protocol>) -> (creation: Creation)
        ensures
            creation == Creation::initial(Request::of(domain, kind, protocol)),
    {
        let protocol = match protocol {
            Some(p) => p.code(),
            None => 0,
        };
        Creation {
            request: Request { family: domain.code(), kind: kind.code(), protocol },
            state: State::Initializing,
        }
    }

    /// The native call to make next, or [`Action::Done`] when none is left.
    pub fn action(&self) -> (action: Action)
        ensures
            action == self.spec_action(),
            action is Done <==> self.finished(),
    {
        match self.state {
            State::Initializing => Action::Initialize,
            State::Opening => Action::Open {
                family: self.request.family,
                kind: self.request.kind,
                protocol: self.request.protocol,
                flags: WSA_FLAG_OVERLAPPED,
            },
            State::Disinheriting { socket } => Action::SetHandleFlags {
                socket,
                mask: HANDLE_FLAG_INHERIT,
                flags: 0,
            },
            State::Unblocking { socket } => Action::SetNonBlocking { socket, enable: 1 },
            State::Closing { socket, .. } => Action::Close { socket },
            State::Ready { .. } => Action::Done,
            State::Failed { .. } => Action::Done,
        }
    }

    /// Takes the result of the call that [`Creation::action`] named and
    /// moves on.
    pub fn advance(&mut self, reply: Reply)
        ensures
            *final(self) == old(self).spec_advance(reply),
            !old(self).finished() ==> final(self).calls_left() < old(self).calls_left(),
    {
        let error = reply.error;
        let next = match self.state {
            State::Initializing => State::Opening,
            State::Opening => if reply.socket == INVALID_SOCKET {
                State::Failed { error }
            } else {
                State::Disinheriting { socket: reply.socket }
            },
            State::Disinheriting { socket } => if reply.status == 0 {
                State::Closing { socket, error }
            } else {
                State::Unblocking { socket }
            },
            State::Unblocking { socket } => if reply.status != 0 {
                State::Closing { socket, error }
            } else {
                State::Ready { socket }
            },
            State::Closing { error: first, .. } => State::Failed { error: first },
            State::Ready { socket } => State::Ready { socket },
            State::Failed { error: first } => State::Failed { error: first },
        };
        self.state = next;
    }

    /// What the sequence ended with: the socket that owns the new handle, or
    /// the error of the call that failed. `None` while calls are left to
    /// make.
    pub fn outcome(&self) -> (outcome: Option<Result<Socket<usize>, Error>>)
        ensures
            match outcome {
                Some(Ok(socket)) => self.spec_outcome() == Some(
                    Ok::<usize, Error>(socket.handle()),
                ) && socket.owned(),
                Some(Err(error)) => self.spec_outcome() == Some(Err::<usize, Error>(error)),
                None => self.spec_outcome() is None,
            },
    {
        match self.state {
            State::Ready { socket } => Some(Ok(Socket::from_raw(socket))),
            State::Failed { error } => Some(Err(Error::Os { code: error })),
            _ => None,
        }
    }
}

/// What the result of the native connect call means: 0 is success,
/// anything else a failure with the platform's error code.
pub open spec fn spec_connected(reply: Reply) -> Result<(), Error> {
    if reply.status == 0 {
        Ok(())
    } else {
        Err(Error::Os { code: reply.error })
    }
}

/// Reads the result of the native connect call: 0 is success, anything else
/// a failure, reported with the code of `WSAGetLastError` as it is, a
/// connection in progress included.
pub fn connected(reply: Reply) -> (result: Result<(), Error>)
    ensures
        result == spec_connected(reply),
{
    if reply.status == 0 {
        Ok(())
    } else {
        Err(Error::Os { code: reply.error })
    }
}

/// Whether `replies` are what `perform` answered, in order, to the calls of
/// the run that starts in `c`, none of them made after the run had ended.
pub open spec fn answered<F: Fn(Action) -> Reply>(
    perform: F,
    c: Creation,
    replies: Seq<Reply>,
) -> bool {
    forall|i: int|
        0 <= i < replies.len() ==> {
            &&& !(#[trigger] c.run(replies.take(i))).finished()
            &&& call_ensures(perform, (c.run(replies.take(i)).spec_action(),), replies[i])
        }
}

/// Whether `replies` are what `perform` answered to the calls of the run
/// that starts in `c`, and the run ends with the last of them and not
/// before.
pub open spec fn performed<F: Fn(Action) -> Reply>(
    perform: F,
    c: Creation,
    replies: Seq<Reply>,
) -> bool {
    answered(perform, c, replies) && c.run(replies).finished()
}

/// One more call, made while the run has not ended and answered by
/// `perform`, extends what was answered.
proof fn lemma_answered_push<F: Fn(Action) -> Reply>(
    perform: F,
    c: Creation,
    replies: Seq<Reply>,
    reply: Reply,
)
    requires
        answered(perform, c, replies),
        !c.run(replies).finished(),
        call_ensures(perform, (c.run(replies).spec_action(),), reply),
    ensures
        answered(perform, c, replies.push(reply)),
        c.run(replies.push(reply)) == c.run(replies).spec_advance(reply),
{
    let longer = replies.push(reply);
    assert(longer.drop_last() =~= replies);
    assert forall|i: int| 0 <= i < longer.len() implies {
        &&& !(#[trigger] c.run(longer.take(i))).finished()
        &&& call_ensures(perform, (c.run(longer.take(i)).spec_action(),), longer[i])
    } by {
        if i < replies.len() {
            assert(longer.take(i) =~= replies.take(i));
        } else {
            assert(longer.take(i) =~= replies);
        }
    }
}

/// Whether `result` is what the run of `c` over `replies` ends with: the
/// socket that owns the new handle, or the error of the call that failed.
pub open spec fn is_outcome(
    result: Result<Socket<usize>, Error>,
    c: Creation,
    replies: Seq<Reply>,
) -> bool {
    match result {
        Ok(socket) => c.run(replies).spec_outcome() == Some(Ok::<usize, Error>(socket.handle()))
            && socket.owned(),
        Err(error) => c.run(replies).spec_outcome() == Some(Err::<usize, Error>(error)),
    }
}

impl Socket<usize> {
    /// Creates a non-blocking socket that child processes do not inherit.
    ///
    /// `perform` makes one native call and reports what it returned. It is
    /// asked for the calls of the sequence, one after the other, the
    /// initialisation of the subsystem first, never for [`Action::Done`],
    /// and for no call once the socket is ready or the creation has failed. The result is the
    /// socket, or the error of the call that failed, in which case a socket
    /// that had been obtained has been closed.
    pub fn new<F: Fn(Action) -> Reply>(
        domain: Domain,
        type_: Type,
        protocol: Option<Protocol>,
        perform: F,
    ) -> (result: Result<Socket<usize>, Error>)
        requires
            forall|action: Action| !(action is Done) ==> call_requires(perform, (action,)),
        ensures
            exists|replies: Seq<Reply>|
                {
                    &&& #[trigger] performed(
                        perform,
                        Creation::initial(Request::of(domain, type_, protocol)),
                        replies,
                    )
                    &&& is_outcome(
                        result,
                        Creation::initial(Request::of(domain, type_, protocol)),
                        replies,
                    )
                },
    {
        let mut creation = Creation::begin(domain, type_, protocol);
        let ghost start = creation;
        let ghost mut replies: Seq<Reply> = Seq::empty();
        loop
            invariant
                forall|action: Action| !(action is Done) ==> call_requires(perform, (action,)),
                start == Creation::initial(Request::of(domain, type_, protocol)),
                creation == start.run(replies),
                answered(perform, start, replies),
            decreases creation.calls_left(),
        {
            match creation.outcome() {
                Some(result) => {
                    proof {
                        assert(performed(perform, start, replies));
                        assert(is_outcome(result, start, replies));
                    }
                    return result;
                },
                None => {},
            }
            let reply = perform(creation.action());
            proof {
                lemma_answered_push(perform, start, replies, reply);
                replies = replies.push(reply);
            }
            creation.advance(reply);
        }
    }

    /// Initiates a connection on this socket to the specified endpoint.
    ///
    /// The endpoint is encoded first. If it has no native form, that is
    /// the error and `perform` is not called. Otherwise `perform` makes the
    /// native connect call once and reports what it returned: 0 is success,
    /// anything else a failure, reported with the platform's error code as
    /// it is, a connection in progress included.
    pub fn connect<F: Fn(Connect<usize>) -> Reply>(
        &self,
        endpoint: &Endpoint,
        perform: F,
    ) -> (result: Result<(), Error>)
        requires
            forall|call: Connect<usize>| call_requires(perform, (call,)),
        ensures
            !endpoint.encodable() ==> (result matches Err(Error::Encode(e)) && is_encoding(
                Err::<Addr, EncodeError>(e),
                *endpoint,
            )),
            endpoint.encodable() ==> exists|call: Connect<usize>, reply: Reply|
                {
                    &&& #[trigger] call_ensures(perform, (call,), reply)
                    &&& call.handle == self.handle()
                    &&& is_encoding(Ok::<Addr, EncodeError>(call.addr), *endpoint)
                    &&& result == spec_connected(reply)
                },
    {
        match self.connect_call(endpoint) {
            Ok(call) => {
                let ghost asked = call;
                let reply = perform(call);
                proof {
                    assert(call_ensures(perform, (asked,), reply));
                }
                connected(reply)
            },
            Err(error) => Err(error),
        }
    }
}

/// The state after `i` replies is one step on from the state after `i - 1`.
proof fn lemma_run_step(c: Creation, replies: Seq<Reply>, i: int)
    requires
        0 < i <= replies.len(),
    ensures
        c.run(replies.take(i)) == c.run(replies.take(i - 1)).spec_advance(replies[i - 1]),
{
    let prefix = replies.take(i);
    assert(prefix.drop_last() =~= replies.take(i - 1));
    assert(prefix.last() == replies[i - 1]);
}

/// Once the sequence has ended, further replies change nothing.
proof fn lemma_finished_stays(c: Creation, replies: Seq<Reply>, i: int, j: int)
    requires
        0 <= i <= j <= replies.len(),
        c.run(replies.take(i)).finished(),
    ensures
        c.run(replies.take(j)) == c.run(replies.take(i)),
    decreases j - i,
{
    if i < j {
        lemma_finished_stays(c, replies, i, j - 1);
        lemma_run_step(c, replies, j);
    }
}

/// The first five steps of a run, spelled out, and the end of a run that is
/// no longer than that.
proof fn lemma_first_steps(c: Creation, replies: Seq<Reply>)
    ensures
        c.run(replies.take(0)) == c,
        c.run(replies.take(replies.len() as int)) == c.run(replies),
        1 <= replies.len() ==> c.run(replies.take(1)) == c.run(replies.take(0)).spec_advance(
            replies[0],
        ),
        2 <= replies.len() ==> c.run(replies.take(2)) == c.run(replies.take(1)).spec_advance(
            replies[1],
        ),
        3 <= replies.len() ==> c.run(replies.take(3)) == c.run(replies.take(2)).spec_advance(
            replies[2],
        ),
        4 <= replies.len() ==> c.run(replies.take(4)) == c.run(replies.take(3)).spec_advance(
            replies[3],
        ),
        5 <= replies.len() ==> c.run(replies.take(5)) == c.run(replies.take(4)).spec_advance(
            replies[4],
        ),
{
    assert(replies.take(0) =~= Seq::<Reply>::empty());
    assert(replies.take(replies.len() as int) =~= replies);
    if 1 <= replies.len() {
        lemma_run_step(c, replies, 1);
    }
    if 2 <= replies.len() {
        lemma_run_step(c, replies, 2);
    }
    if 3 <= replies.len() {
        lemma_run_step(c, replies, 3);
    }
    if 4 <= replies.len() {
        lemma_run_step(c, replies, 4);
    }
    if 5 <= replies.len() {
        lemma_run_step(c, replies, 5);
    }
}

/// A creation is over after five replies at most.
proof fn lemma_settled(request: Request, replies: Seq<Reply>)
    ensures
        forall|i: int|
            5 <= i <= replies.len() ==> #[trigger] Creation::initial(request).run(replies.take(i))
                == Creation::initial(request).run(replies.take(5)),
        5 <= replies.len() ==> Creation::initial(request).run(replies.take(5)).finished(),
{
    let c = Creation::initial(request);
    lemma_first_steps(c, replies);
    assert forall|i: int| 5 <= i <= replies.len() implies #[trigger] c.run(replies.take(i))
        == c.run(replies.take(5)) by {
        lemma_finished_stays(c, replies, 5, i);
    }
}

/// Every creation ends: after five replies, whatever they are, it is ready
/// or has failed.
pub proof fn law_creation_ends(request: Request, replies: Seq<Reply>)
    requires
        replies.len() >= 5,
    ensures
        Creation::initial(request).run(replies).finished(),
{
    let c = Creation::initial(request);
    lemma_first_steps(c, replies);
    lemma_settled(request, replies);
    assert(c.run(replies) == c.run(replies.take(replies.len() as int)));
}

/// The calls of a successful creation: the initialisation of the
/// subsystem, the creation call with the overlapped flag, the clearing of
/// the inherit flag, and the switch to non-blocking.
pub open spec fn successful_calls(request: Request, replies: Seq<Reply>) -> Seq<Action> {
    seq![
        Action::Initialize,
        Action::Open {
            family: request.family,
            kind: request.kind,
            protocol: request.protocol,
            flags: WSA_FLAG_OVERLAPPED,
        },
        Action::SetHandleFlags { socket: replies[1].socket, mask: HANDLE_FLAG_INHERIT, flags: 0 },
        Action::SetNonBlocking { socket: replies[1].socket, enable: 1 },
    ]
}

/// A socket is ready only after exactly the calls of [`successful_calls`]
/// succeeded, the initialisation first. Nothing is closed, and the handle
/// of the ready socket is the one the creation call returned.
pub proof fn law_success(request: Request, replies: Seq<Reply>)
    requires
        Creation::initial(request).run(replies).state is Ready,
    ensures
        replies.len() >= 4,
        replies[1].socket != INVALID_SOCKET,
        replies[2].status != 0,
        replies[3].status == 0,
        Creation::initial(request).run(replies).state == (State::Ready {
            socket: replies[1].socket,
        }),
        Creation::initial(request).calls(replies).take(4) == successful_calls(request, replies),
        forall|i: int|
            4 <= i < replies.len() ==> #[trigger] Creation::initial(request).calls(
                replies,
            )[i] is Done,
{
    let c = Creation::initial(request);
    lemma_first_steps(c, replies);
    lemma_settled(request, replies);
    assert(replies.len() >= 4);
    assert(c.run(replies.take(4)).state == (State::Ready { socket: replies[1].socket }));
    assert(c.calls(replies).take(4) =~= successful_calls(request, replies));
    assert forall|i: int| 4 <= i < replies.len() implies #[trigger] c.calls(replies)[i] is Done by {
        lemma_finished_stays(c, replies, 4, i);
    }
}

/// Whether, in the run of `c` over `replies`, the `k`-th call is the one
/// close of the run: the call just before it failed, the `k`-th call closes
/// the socket that the creation call returned, no other call closes
/// anything, and the run ends with the error of the call that failed.
pub open spec fn closes_at(c: Creation, replies: Seq<Reply>, k: int) -> bool {
    &&& 3 <= k < replies.len()
    &&& c.run(replies.take(k - 1)).fails(replies[k - 1])
    &&& c.calls(replies)[k] == Action::Close { socket: replies[1].socket }
    &&& forall|j: int|
        0 <= j < replies.len() && j != k ==> !(#[trigger] c.calls(replies)[j] is Close)
    &&& forall|j: int| k < j < replies.len() ==> #[trigger] c.calls(replies)[j] is Done
    &&& c.run(replies).state == State::Failed { error: replies[k - 1].error }
}

/// No socket is left open by a creation that failed. If the creation call
/// itself failed there is none, no further call is made, and the error is
/// its own. If a later call failed, the socket is closed exactly once, right
/// after that call, and the error is that call's, whatever closing
/// returned.
pub proof fn law_failure_closes_socket(request: Request, replies: Seq<Reply>)
    requires
        Creation::initial(request).run(replies).state is Failed,
    ensures
        replies.len() >= 2,
        replies[1].socket == INVALID_SOCKET ==> {
            &&& Creation::initial(request).run(replies).state == State::Failed {
                error: replies[1].error,
            }
            &&& forall|j: int|
                2 <= j < replies.len() ==> #[trigger] Creation::initial(request).calls(
                    replies,
                )[j] is Done
        },
        replies[1].socket != INVALID_SOCKET ==> exists|k: int| #[trigger]
            closes_at(Creation::initial(request), replies, k),
{
    let c = Creation::initial(request);
    lemma_first_steps(c, replies);
    lemma_settled(request, replies);
    if replies[1].socket == INVALID_SOCKET {
        assert forall|j: int| 2 <= j < replies.len() implies #[trigger] c.calls(replies)[j]
            is Done by {
            lemma_finished_stays(c, replies, 2, j);
        }
    } else {
        let k: int = if replies[2].status == 0 {
            3
        } else {
            4
        };
        assert(3 <= k < replies.len());
        assert(c.run(replies.take(k + 1)).finished());
        assert forall|j: int| k < j < replies.len() implies #[trigger] c.calls(replies)[j]
            is Done by {
            lemma_finished_stays(c, replies, k + 1, j);
        }
        assert(closes_at(c, replies, k));
    }
}

/// A creation that was carried out took between two and five calls.
pub proof fn law_creation_is_short<F: Fn(Action) -> Reply>(
    perform: F,
    request: Request,
    replies: Seq<Reply>,
)
    requires
        performed(perform, Creation::initial(request), replies),
    ensures
        2 <= replies.len() <= 5,
{
    let c = Creation::initial(request);
    lemma_first_steps(c, replies);
    lemma_settled(request, replies);
    if replies.len() > 5 {
        assert(c.run(replies.take(5)).finished());
    }
}

} // verus!
