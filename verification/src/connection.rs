use crate::policy::{should_block, Policy};
use crate::request::{
    first_read, get_request, request_of_bytes, ClientRequest, ParseError, RequestView,
};
use crate::response::ServerResponse;
use crate::tunnel::TunnelStats;
use vstd::prelude::*;
use vstd::string::StringExecFns;

verus! {

/// How a `CONNECT` request ended. `A` is the type of a socket address.
#[derive(Debug, PartialEq)]
pub enum ConnectResult<A> {
    /// The target could not be resolved, or the policy refuses it.
    InvalidDestination(String),
    /// The tunnel was open, and both sides have closed it: the client's
    /// address, the destination's address, and the bytes carried.
    Success(A, A, TunnelStats),
}

/// How a connection ended that was answered.
#[derive(Debug, PartialEq)]
pub enum ConnectionResult<A> {
    /// The request asked for a method other than `CONNECT`.
    InvalidRequest(String),
    Connect(ConnectResult<A>),
}

/// Why a connection ended without an answer, or with one that could not be
/// delivered.
#[derive(Debug, Clone, Copy, PartialEq, Eq, Structural)]
pub enum ConnectionError {
    /// The request could not be read as one.
    Request(ParseError),
    /// Reading, dialing, writing, closing or relaying failed.
    Io,
    /// An event was reported that the connection was not waiting for.
    UnexpectedEvent,
}

/// What a connection is waiting for.
#[derive(Debug, PartialEq)]
pub enum State<A> {
    /// The request is being read.
    AwaitRequest { client: A },
    /// The target of a `CONNECT` request is being resolved.
    Resolving { client: A, target: String },
    /// The destination is being dialed.
    Dialing { client: A, dest: A },
    /// The destination is connected, and the client is being told so.
    Acknowledging { client: A, dest: A },
    /// Bytes are relayed between the client and the destination.
    Relaying { client: A, dest: A },
    /// The request was refused, and the client is being told so.
    Rejecting { outcome: ConnectionResult<A> },
    /// The refusal was sent, and the client's stream is being closed.
    Closing { outcome: ConnectionResult<A> },
    /// Nothing more happens on this connection.
    Finished,
}

/// What the outside has done for a connection.
#[derive(Debug, PartialEq)]
pub enum Event<A> {
    /// One read from the client gave these bytes.
    Received(Vec<u8>),
    /// The target was resolved: to its first address, or to none.
    Resolved(Option<A>),
    /// The destination accepted the connection.
    Connected,
    /// The response was written in full.
    Sent,
    /// The client's stream was closed.
    Closed,
    /// Both directions of the relay are over.
    Relayed(TunnelStats),
    /// What was asked for failed.
    Failed,
}

/// What the outside is to do next for a connection.
#[derive(Debug, PartialEq)]
pub enum Action<A> {
    /// Read once from the client, at most `MAX_REQUEST_SIZE` bytes.
    Read,
    /// Resolve this target, written as `host:port`.
    Resolve(String),
    /// Open a connection to this address.
    Dial(A),
    /// Write this response to the client.
    Send(ServerResponse),
    /// Close the client's stream.
    Shutdown,
    /// Relay bytes between the client and the destination until both
    /// directions are over.
    Relay,
    /// Nothing: the connection is over, and this is how it ended.
    Finish(Result<ConnectionResult<A>, ConnectionError>),
}

/// A `ConnectResult` with its text as a character sequence.
pub enum ConnectResultView<A> {
    InvalidDestination(Seq<char>),
    Success(A, A, TunnelStats),
}

/// A `ConnectionResult` with its text as a character sequence.
pub enum ConnectionResultView<A> {
    InvalidRequest(Seq<char>),
    Connect(ConnectResultView<A>),
}

/// A `State` with its text as a character sequence.
pub enum StateView<A> {
    AwaitRequest { client: A },
    Resolving { client: A, target: Seq<char> },
    Dialing { client: A, dest: A },
    Acknowledging { client: A, dest: A },
    Relaying { client: A, dest: A },
    Rejecting { outcome: ConnectionResultView<A> },
    Closing { outcome: ConnectionResultView<A> },
    Finished,
}

/// An `Action` with its text as a character sequence.
pub enum ActionView<A> {
    Read,
    Resolve(Seq<char>),
    Dial(A),
    Send(ServerResponse),
    Shutdown,
    Relay,
    Finish(Result<ConnectionResultView<A>, ConnectionError>),
}

impl<A> View for ConnectResult<A> {
    type V = ConnectResultView<A>;

    open spec fn view(&self) -> ConnectResultView<A> {
        match *self {
            ConnectResult::InvalidDestination(target) => ConnectResultView::InvalidDestination(
                target@,
            ),
            ConnectResult::Success(client, dest, stats) => ConnectResultView::Success(
                client,
                dest,
                stats,
            ),
        }
    }
}

impl<A> View for ConnectionResult<A> {
    type V = ConnectionResultView<A>;

    open spec fn view(&self) -> ConnectionResultView<A> {
        match *self {
            ConnectionResult::InvalidRequest(method) => ConnectionResultView::InvalidRequest(
                method@,
            ),
            ConnectionResult::Connect(result) => ConnectionResultView::Connect(result@),
        }
    }
}

impl<A> View for State<A> {
    type V = StateView<A>;

    open spec fn view(&self) -> StateView<A> {
        match *self {
            State::AwaitRequest { client } => StateView::AwaitRequest { client },
            State::Resolving { client, target } => StateView::Resolving { client, target: target@ },
            State::Dialing { client, dest } => StateView::Dialing { client, dest },
            State::Acknowledging { client, dest } => StateView::Acknowledging { client, dest },
            State::Relaying { client, dest } => StateView::Relaying { client, dest },
            State::Rejecting { outcome } => StateView::Rejecting { outcome: outcome@ },
            State::Closing { outcome } => StateView::Closing { outcome: outcome@ },
            State::Finished => StateView::Finished,
        }
    }
}

impl<A> View for Action<A> {
    type V = ActionView<A>;

    open spec fn view(&self) -> ActionView<A> {
        match *self {
            Action::Read => ActionView::Read,
            Action::Resolve(target) => ActionView::Resolve(target@),
            Action::Dial(dest) => ActionView::Dial(dest),
            Action::Send(response) => ActionView::Send(response),
            Action::Shutdown => ActionView::Shutdown,
            Action::Relay => ActionView::Relay,
            Action::Finish(Ok(outcome)) => ActionView::Finish(Ok(outcome@)),
            Action::Finish(Err(e)) => ActionView::Finish(Err(e)),
        }
    }
}

/// The end of a connection on which something went wrong outside.
pub open spec fn failed<A>() -> (StateView<A>, ActionView<A>) {
    (StateView::Finished, ActionView::Finish(Err(ConnectionError::Io)))
}

/// The end of a connection to which an event was reported that it was not
/// waiting for.
pub open spec fn unexpected<A>() -> (StateView<A>, ActionView<A>) {
    (StateView::Finished, ActionView::Finish(Err(ConnectionError::UnexpectedEvent)))
}

/// What follows the reading of the request. A request that cannot be read is
/// not answered. One with another method than `CONNECT` is refused. The
/// target of a `CONNECT` request is resolved next.
pub open spec fn after_request<A>(client: A, request: Result<RequestView, ParseError>) -> (
    StateView<A>,
    ActionView<A>,
) {
    match request {
        Err(e) => (StateView::Finished, ActionView::Finish(Err(ConnectionError::Request(e)))),
        Ok(r) => if r.method.name == "CONNECT"@ {
            (
                StateView::Resolving { client, target: r.method.uri },
                ActionView::Resolve(r.method.uri),
            )
        } else {
            (
                StateView::Rejecting {
                    outcome: ConnectionResultView::InvalidRequest(r.method.name),
                },
                ActionView::Send(ServerResponse::MethodNotAllowed),
            )
        },
    }
}

/// What follows the resolution of `target`, given the address found and
/// what the policy says of the target. A target without an address is
/// refused as a bad request, one that the policy blocks as forbidden. Any
/// other is dialed.
pub open spec fn after_resolution<A>(
    client: A,
    target: Seq<char>,
    address: Option<A>,
    blocked: bool,
) -> (StateView<A>, ActionView<A>) {
    let refused = StateView::Rejecting {
        outcome: ConnectionResultView::Connect(ConnectResultView::InvalidDestination(target)),
    };
    match address {
        None => (refused, ActionView::Send(ServerResponse::BadRequest)),
        Some(dest) => if blocked {
            (refused, ActionView::Send(ServerResponse::Forbidden))
        } else {
            (StateView::Dialing { client, dest }, ActionView::Dial(dest))
        },
    }
}

/// The state that follows `state` when `event` is reported, and what is to
/// be done next.
pub open spec fn next_of<A>(policy: &Policy, state: StateView<A>, event: Event<A>) -> (
    StateView<A>,
    ActionView<A>,
) {
    match (state, event) {
        (StateView::Finished, _) => unexpected(),
        (_, Event::Failed) => failed(),
        (StateView::AwaitRequest { client }, Event::Received(bytes)) => after_request(
            client,
            request_of_bytes(first_read(bytes@)),
        ),
        (StateView::Resolving { client, target }, Event::Resolved(address)) => after_resolution(
            client,
            target,
            address,
            policy.blocks(target),
        ),
        (StateView::Dialing { client, dest }, Event::Connected) => (
            StateView::Acknowledging { client, dest },
            ActionView::Send(ServerResponse::Okay),
        ),
        (StateView::Acknowledging { client, dest }, Event::Sent) => (
            StateView::Relaying { client, dest },
            ActionView::Relay,
        ),
        (StateView::Relaying { client, dest }, Event::Relayed(stats)) => (
            StateView::Finished,
            ActionView::Finish(
                Ok(ConnectionResultView::Connect(ConnectResultView::Success(client, dest, stats))),
            ),
        ),
        (StateView::Rejecting { outcome }, Event::Sent) => (
            StateView::Closing { outcome },
            ActionView::Shutdown,
        ),
        (StateView::Closing { outcome }, Event::Closed) => (
            StateView::Finished,
            ActionView::Finish(Ok(outcome)),
        ),
        _ => unexpected(),
    }
}

/// The view of a state and an action.
pub open spec fn view_of<A>(pair: (State<A>, Action<A>)) -> (StateView<A>, ActionView<A>) {
    (pair.0@, pair.1@)
}

/// Starts a connection that was accepted from `client`: its request is to be
/// read.
pub fn start<A>(client: A) -> (first: (State<A>, Action<A>))
    ensures
        view_of(first) == (StateView::AwaitRequest { client }, ActionView::<A>::Read),
{
    (State::AwaitRequest { client }, Action::Read)
}

/// Ends a connection on which something went wrong outside.
fn fail<A>() -> (end: (State<A>, Action<A>))
    ensures
        view_of(end) == failed::<A>(),
{
    (State::Finished, Action::Finish(Err(ConnectionError::Io)))
}

/// Ends a connection to which an event was reported that it was not waiting
/// for.
fn refuse_event<A>() -> (end: (State<A>, Action<A>))
    ensures
        view_of(end) == unexpected::<A>(),
{
    (State::Finished, Action::Finish(Err(ConnectionError::UnexpectedEvent)))
}

/// Decides what follows the reading of the request.
pub fn handle_request<A>(client: A, request: Result<ClientRequest, ParseError>) -> (next: (
    State<A>,
    Action<A>,
))
    ensures
        view_of(next) == after_request(
            client,
            match request {
                Ok(r) => Ok(r@),
                Err(e) => Err(e),
            },
        ),
{
    match request {
        Err(e) => (State::Finished, Action::Finish(Err(ConnectionError::Request(e)))),
        Ok(r) => {
            let connect = String::from_str("CONNECT");
            let method = r.method;
            if method.name == connect {
                let target = method.uri;
                (State::Resolving { client, target: target.clone() }, Action::Resolve(target))
            } else {
                (
                    State::Rejecting { outcome: ConnectionResult::InvalidRequest(method.name) },
                    Action::Send(ServerResponse::MethodNotAllowed),
                )
            }
        },
    }
}

/// Decides what follows the resolution of `target`, given the address found
/// and whether the policy blocks the target.
pub fn handle_resolution<A: Copy>(
    client: A,
    target: String,
    address: Option<A>,
    blocked: bool,
) -> (next: (State<A>, Action<A>))
    ensures
        view_of(next) == after_resolution(client, target@, address, blocked),
{
    match address {
        None => (
            State::Rejecting {
                outcome: ConnectionResult::Connect(ConnectResult::InvalidDestination(target)),
            },
            Action::Send(ServerResponse::BadRequest),
        ),
        Some(dest) => if blocked {
            (
                State::Rejecting {
                    outcome: ConnectionResult::Connect(ConnectResult::InvalidDestination(target)),
                },
                Action::Send(ServerResponse::Forbidden),
            )
        } else {
            (State::Dialing { client, dest }, Action::Dial(dest))
        },
    }
}

/// Takes a connection one step on: from the state it is in and the event that
/// was reported to the state that follows, and to what is to be done next.
pub fn step<A: Copy>(policy: &Policy, state: State<A>, event: Event<A>) -> (next: (
    State<A>,
    Action<A>,
))
    ensures
        view_of(next) == next_of(policy, state@, event),
{
    match state {
        State::Finished => refuse_event(),
        State::AwaitRequest { client } => match event {
            Event::Failed => fail(),
            Event::Received(bytes) => handle_request(client, get_request(bytes.as_slice())),
            _ => refuse_event(),
        },
        State::Resolving { client, target } => match event {
            Event::Failed => fail(),
            Event::Resolved(address) => {
                let blocked = should_block(policy, target.as_str());
                handle_resolution(client, target, address, blocked)
            },
            _ => refuse_event(),
        },
        State::Dialing { client, dest } => match event {
            Event::Failed => fail(),
            Event::Connected => (
                State::Acknowledging { client, dest },
                Action::Send(ServerResponse::Okay),
            ),
            _ => refuse_event(),
        },
        State::Acknowledging { client, dest } => match event {
            Event::Failed => fail(),
            Event::Sent => (State::Relaying { client, dest }, Action::Relay),
            _ => refuse_event(),
        },
        State::Relaying { client, dest } => match event {
            Event::Failed => fail(),
            Event::Relayed(stats) => (
                State::Finished,
                Action::Finish(
                    Ok(ConnectionResult::Connect(ConnectResult::Success(client, dest, stats))),
                ),
            ),
            _ => refuse_event(),
        },
        State::Rejecting { outcome } => match event {
            Event::Failed => fail(),
            Event::Sent => (State::Closing { outcome }, Action::Shutdown),
            _ => refuse_event(),
        },
        State::Closing { outcome } => match event {
            Event::Failed => fail(),
            Event::Closed => (State::Finished, Action::Finish(Ok(outcome))),
            _ => refuse_event(),
        },
    }
}

/// The client is told that the tunnel is open before a byte is relayed: a
/// relay begins only when that response was written in full, and that
/// response is written only once the destination is connected.
pub proof fn lemma_relay_follows_acknowledgement<A>(
    policy: &Policy,
    state: StateView<A>,
    event: Event<A>,
)
    ensures
        next_of(policy, state, event).1 is Relay ==> state is Acknowledging && event is Sent,
        next_of(policy, state, event).0 is Relaying <==> next_of(policy, state, event).1 is Relay,
        next_of(policy, state, event).0 is Acknowledging ==> state is Dialing && event is Connected
            && next_of(policy, state, event).1 == ActionView::<A>::Send(ServerResponse::Okay),
{
}

/// No destination is dialed that the policy blocks, and none before its
/// target was resolved.
pub proof fn lemma_blocked_target_is_not_dialed<A>(
    policy: &Policy,
    state: StateView<A>,
    event: Event<A>,
)
    ensures
        next_of(policy, state, event).1 matches ActionView::Dial(dest) ==> event == Event::Resolved(
            Some(dest),
        ) && (state matches StateView::Resolving { target, .. } && !policy.blocks(target)),
{
}

/// A request is refused with a response, and the client's stream is closed
/// once that response is written. The connection then ends as the refusal
/// said.
pub proof fn lemma_refusal_is_sent_then_closed<A>(
    policy: &Policy,
    outcome: ConnectionResultView<A>,
)
    ensures
        next_of(policy, StateView::Rejecting { outcome }, Event::<A>::Sent) == (
            StateView::Closing { outcome },
            ActionView::<A>::Shutdown,
        ),
        next_of(policy, StateView::Closing { outcome }, Event::<A>::Closed) == (
            StateView::<A>::Finished,
            ActionView::Finish(Ok(outcome)),
        ),
{
}

/// A response other than the acknowledgement of the tunnel is a refusal:
/// it is sent on the way to the end of the connection.
pub proof fn lemma_error_response_is_a_refusal<A>(
    policy: &Policy,
    state: StateView<A>,
    event: Event<A>,
)
    ensures
        next_of(policy, state, event).1 matches ActionView::Send(response) ==> (response
            != ServerResponse::Okay <==> next_of(policy, state, event).0 is Rejecting),
{
}

/// A request that cannot be read is not answered: the connection ends with
/// the parser's error, and nothing is sent.
pub proof fn lemma_unreadable_request_is_not_answered<A>(
    policy: &Policy,
    client: A,
    bytes: Vec<u8>,
)
    requires
        request_of_bytes(first_read(bytes@)) is Err,
    ensures
        next_of(policy, StateView::AwaitRequest { client }, Event::Received(bytes)) == (
            StateView::<A>::Finished,
            ActionView::<A>::Finish(
                Err(ConnectionError::Request(request_of_bytes(first_read(bytes@))->Err_0)),
            ),
        ),
{
}

/// A failure outside ends the connection at once, whatever it was waiting
/// for, and a connection that has ended takes no further step.
pub proof fn lemma_failure_ends_the_connection<A>(
    policy: &Policy,
    state: StateView<A>,
    event: Event<A>,
)
    ensures
        !(state is Finished) ==> next_of(policy, state, Event::<A>::Failed) == failed::<A>(),
        next_of(policy, StateView::<A>::Finished, event) == unexpected::<A>(),
        next_of(policy, state, event).1 is Finish <==> next_of(policy, state, event).0 is Finished,
{
}

} // verus!
