use vstd::prelude::*;
use vstd::string::StringExecFns;
use crate::json::{Json, JsonModel, optional_model};
use crate::error::{RpcError, RpcErrorModel, method_not_found_model, internal_error_model};
use crate::message::{
    DecodeErrorModel, Id, IdModel, Message, MessageModel, NotificationModel, Request,
    RequestModel, Response, ResponseModel, Single, SingleModel, refusal_model, result_model,
    single_models,
};
use crate::codec::{Frame, FrameModel};
use crate::server::{Server, ServerCtl, ServerCtlModel, note_models};

verus! {

/// Where a connection stands.
#[derive(Debug, Clone, Copy, PartialEq, Eq, Structural)]
pub enum Phase {
    /// Frames are taken and calls are answered.
    Active,
    /// No new frame is taken; the calls in flight are still answered.
    Terminating,
    /// Nothing is in flight and the stream is to be closed.
    Closed,
}

/// A call that was handed to the server and has not resolved yet.
#[derive(Debug, PartialEq)]
pub struct Call {
    /// The name under which the endpoint waits for the outcome.
    pub token: u64,
    /// The id of the request, under which the reply goes out.
    pub id: Id,
}

/// The mathematical model of a call in flight.
pub struct CallModel {
    pub token: u64,
    pub id: IdModel,
}

impl View for Call {
    type V = CallModel;

    open spec fn view(&self) -> CallModel {
        CallModel { token: self.token, id: self.id@ }
    }
}

/// The models of a sequence of calls, in order.
pub open spec fn call_models(calls: Seq<Call>) -> Seq<CallModel> {
    Seq::new(calls.len(), |i: int| calls[i]@)
}

/// A batch of which some calls have not resolved yet.
#[derive(Debug, PartialEq)]
pub struct OpenBatch {
    /// The calls of the batch that are in flight, in the order of arrival.
    pub calls: Vec<Call>,
    /// The replies of the batch that are there, in the order in which they
    /// came about.
    pub replies: Vec<Single>,
}

/// The mathematical model of an open batch.
pub struct BatchModel {
    pub calls: Seq<CallModel>,
    pub replies: Seq<SingleModel>,
}

impl View for OpenBatch {
    type V = BatchModel;

    open spec fn view(&self) -> BatchModel {
        BatchModel { calls: call_models(self.calls@), replies: single_models(self.replies@) }
    }
}

/// The models of a sequence of open batches, in order.
pub open spec fn batch_models(batches: Seq<OpenBatch>) -> Seq<BatchModel> {
    Seq::new(batches.len(), |i: int| batches[i]@)
}

/// What the endpoint asks the application to do.
pub enum Action<R, N> {
    /// Write this message to the stream.
    Send(Message),
    /// Run this call, and report its outcome under the token.
    Call { token: u64, result: R },
    /// Run this notification; nobody waits for its outcome.
    Notify(N),
    /// Close the stream.
    Close,
}

/// The mathematical model of an action.
pub enum ActionModel<R, N> {
    Send(MessageModel),
    Call { token: u64, result: R },
    Notify(N),
    Close,
}

impl<R, N> View for Action<R, N> {
    type V = ActionModel<R, N>;

    open spec fn view(&self) -> ActionModel<R, N> {
        match self {
            Action::Send(message) => ActionModel::Send(message@),
            Action::Call { token, result } => ActionModel::Call { token: *token, result: *result },
            Action::Notify(result) => ActionModel::Notify(*result),
            Action::Close => ActionModel::Close,
        }
    }
}

/// The models of a sequence of actions, in order.
pub open spec fn action_models<R, N>(actions: Seq<Action<R, N>>) -> Seq<ActionModel<R, N>> {
    Seq::new(actions.len(), |i: int| actions[i]@)
}

/// Where the first call under `token` stands at or after `from`, or the
/// number of calls where there is none.
pub open spec fn call_position(calls: Seq<CallModel>, token: u64, from: int) -> int
    decreases calls.len() - from,
{
    if from < 0 || from >= calls.len() {
        calls.len() as int
    } else if calls[from].token == token {
        from
    } else {
        call_position(calls, token, from + 1)
    }
}

/// Where the first batch that waits for `token` stands at or after `from`,
/// or the number of batches where there is none.
pub open spec fn batch_position(batches: Seq<BatchModel>, token: u64, from: int) -> int
    decreases batches.len() - from,
{
    if from < 0 || from >= batches.len() {
        batches.len() as int
    } else if call_position(batches[from].calls, token, 0) < batches[from].calls.len() {
        from
    } else {
        batch_position(batches, token, from + 1)
    }
}

/// The reply to the request with this id.
pub open spec fn reply_model(id: IdModel, outcome: Result<JsonModel, RpcErrorModel>) -> SingleModel {
    SingleModel::Response(ResponseModel { result: outcome, id: Some(id) })
}

/// The calls in flight and the batches that wait for some of them.
pub struct Flights {
    pub calls: Seq<CallModel>,
    pub batches: Seq<BatchModel>,
}

/// What the outcome of the call under `token` does to the calls in flight,
/// and what goes out for it. The reply to a call of its own goes out at
/// once. The reply to a call of a batch joins the replies of the batch, and
/// the batch goes out with its last reply. An unknown token changes nothing.
pub open spec fn landed(flights: Flights, token: u64, outcome: Result<JsonModel, RpcErrorModel>) -> (
    Flights,
    Option<MessageModel>,
) {
    let at = call_position(flights.calls, token, 0);
    if 0 <= at < flights.calls.len() {
        (
            Flights { calls: flights.calls.remove(at), ..flights },
            Some(MessageModel::Single(reply_model(flights.calls[at].id, outcome))),
        )
    } else {
        let b = batch_position(flights.batches, token, 0);
        if 0 <= b < flights.batches.len() {
            let batch = flights.batches[b];
            let j = call_position(batch.calls, token, 0);
            let replies = batch.replies.push(reply_model(batch.calls[j].id, outcome));
            if batch.calls.len() == 1 {
                (
                    Flights { batches: flights.batches.remove(b), ..flights },
                    Some(MessageModel::Batch(replies)),
                )
            } else {
                (
                    Flights {
                        batches: flights.batches.update(
                            b,
                            BatchModel { calls: batch.calls.remove(j), replies },
                        ),
                        ..flights
                    },
                    None,
                )
            }
        } else {
            (flights, None)
        }
    }
}

fn find_call(calls: &Vec<Call>, token: u64) -> (at: usize)
    ensures
        at == call_position(call_models(calls@), token, 0),
        at <= calls.len(),
{
    let mut i: usize = 0;
    while i < calls.len()
        invariant
            i <= calls.len(),
            call_position(call_models(calls@), token, 0) == call_position(
                call_models(calls@),
                token,
                i as int,
            ),
        decreases calls.len() - i,
    {
        if calls[i].token == token {
            return i;
        }
        i += 1;
    }
    i
}

fn find_batch(batches: &Vec<OpenBatch>, token: u64) -> (at: usize)
    ensures
        at == batch_position(batch_models(batches@), token, 0),
        at <= batches.len(),
        at < batches.len() ==> call_position(call_models(batches@[at as int].calls@), token, 0)
            < batches@[at as int].calls.len(),
{
    let mut i: usize = 0;
    while i < batches.len()
        invariant
            i <= batches.len(),
            batch_position(batch_models(batches@), token, 0) == batch_position(
                batch_models(batches@),
                token,
                i as int,
            ),
        decreases batches.len() - i,
    {
        if find_call(&batches[i].calls, token) < batches[i].calls.len() {
            return i;
        }
        i += 1;
    }
    i
}

/// The server side of one connection.
///
/// The endpoint decides and the application acts. Each of its functions
/// takes what happened (a frame arrived, a call resolved) and answers with
/// the actions that are due, in order. It keeps the calls in flight, so
/// that each gets its one reply, and the state of the connection.
pub struct Endpoint<S: Server> {
    server: S,
    ctl: ServerCtl,
    phase: Phase,
    next_token: u64,
    calls: Vec<Call>,
    batches: Vec<OpenBatch>,
}

/// The mathematical model of an endpoint.
pub struct EndpointModel {
    /// Where the connection stands.
    pub phase: Phase,
    /// The token that the next call gets.
    pub next_token: u64,
    /// The calls in flight.
    pub flights: Flights,
    /// What the server asked of the connection and is not yet acted on.
    pub ctl: ServerCtlModel,
}

/// Whether nothing is in flight.
pub open spec fn landed_all(flights: Flights) -> bool {
    flights.calls.len() == 0 && flights.batches.len() == 0
}

/// The action that sends a notification of the server.
pub open spec fn note_action<R, N>(note: NotificationModel) -> ActionModel<R, N> {
    ActionModel::Send(MessageModel::Single(SingleModel::Notification(note)))
}

/// What is due once the server was heard: its notifications go out, oldest
/// first; the connection is terminating once the server asked for its end;
/// and a connection that is terminating with nothing in flight is closed.
pub open spec fn settled<R, N>(before: EndpointModel) -> (EndpointModel, Seq<ActionModel<R, N>>) {
    let sends = Seq::new(before.ctl.notes.len(), |i: int| note_action::<R, N>(before.ctl.notes[i]));
    let phase = if before.phase is Active && before.ctl.terminated {
        Phase::Terminating
    } else {
        before.phase
    };
    let ctl = ServerCtlModel { notes: Seq::empty(), ..before.ctl };
    if phase is Terminating && landed_all(before.flights) {
        (EndpointModel { phase: Phase::Closed, ctl, ..before }, sends.push(ActionModel::Close))
    } else {
        (EndpointModel { phase, ctl, ..before }, sends)
    }
}

/// What the outcome of a call does to an endpoint, and what is due for it.
pub open spec fn resolved_model<R, N>(
    before: EndpointModel,
    token: u64,
    outcome: Result<JsonModel, RpcErrorModel>,
) -> (EndpointModel, Seq<ActionModel<R, N>>) {
    let (flights, reply) = landed(before.flights, token, outcome);
    let (after, rest) = settled::<R, N>(EndpointModel { flights, ..before });
    match reply {
        Some(message) => (after, seq![ActionModel::Send(message)] + rest),
        None => (after, rest),
    }
}

impl<S: Server> View for Endpoint<S> {
    type V = EndpointModel;

    closed spec fn view(&self) -> EndpointModel {
        EndpointModel {
            phase: self.phase,
            next_token: self.next_token,
            flights: Flights { calls: call_models(self.calls@), batches: batch_models(self.batches@) },
            ctl: self.ctl@,
        }
    }
}

/// Whether a state is one that an endpoint can be in between two events:
/// what the server asked for is acted on, a batch that is kept waits for a
/// call, and a closed connection has nothing in flight.
pub open spec fn at_rest(model: EndpointModel) -> bool {
    &&& model.ctl.notes.len() == 0
    &&& model.ctl.terminated <==> !(model.phase is Active)
    &&& model.phase is Closed ==> landed_all(model.flights)
    &&& forall|b: int| 0 <= b < model.flights.batches.len() ==> (#[trigger] model.flights.batches[b]).calls.len() > 0
}

impl<S: Server> Endpoint<S> {
    /// The server that answers for this connection.
    pub closed spec fn server(&self) -> S {
        self.server
    }

    /// Where the connection stands.
    pub fn phase(&self) -> (phase: Phase)
        ensures
            phase == self@.phase,
    {
        self.phase
    }

    /// The number of calls of their own that are in flight.
    pub fn calls_in_flight(&self) -> (n: usize)
        ensures
            n == self@.flights.calls.len(),
    {
        self.calls.len()
    }

    /// The number of batches that wait for a call.
    pub fn batches_in_flight(&self) -> (n: usize)
        ensures
            n == self@.flights.batches.len(),
    {
        self.batches.len()
    }

    fn settle(&mut self, actions: &mut Vec<Action<S::RpcCallResult, S::NotificationResult>>)
        requires
            old(self)@.ctl.terminated || old(self)@.phase is Active,
            old(self)@.phase is Closed ==> landed_all(old(self)@.flights),
            forall|b: int|
                0 <= b < old(self)@.flights.batches.len() ==> (#[trigger] old(
                    self,
                )@.flights.batches[b]).calls.len() > 0,
        ensures
            final(self)@ == settled::<S::RpcCallResult, S::NotificationResult>(old(self)@).0,
            action_models(final(actions)@) == action_models(old(actions)@) + settled::<
                S::RpcCallResult,
                S::NotificationResult,
            >(old(self)@).1,
            final(self).server() == old(self).server(),
            at_rest(final(self)@),
    {
        let ghost start = action_models(actions@);
        let ghost sends = Seq::new(
            self@.ctl.notes.len(),
            |i: int| note_action::<S::RpcCallResult, S::NotificationResult>(self@.ctl.notes[i]),
        );
        let notes = self.ctl.take_notifications();
        let mut i: usize = 0;
        assert(action_models(actions@) =~= start + sends.subrange(0, 0));
        while i < notes.len()
            invariant
                i <= notes.len(),
                note_models(notes@) == old(self)@.ctl.notes,
                sends.len() == notes.len(),
                forall|k: int| 0 <= k < notes.len() ==> sends[k] == note_action::<
                    S::RpcCallResult,
                    S::NotificationResult,
                >(notes@[k]@),
                action_models(actions@) == start + sends.subrange(0, i as int),
            decreases notes.len() - i,
        {
            let ghost before = action_models(actions@);
            actions.push(Action::Send(Message::Single(Single::Notification(notes[i].clone()))));
            assert(action_models(actions@) =~= before.push(sends[i as int]));
            assert(before.push(sends[i as int]) =~= start + sends.subrange(0, i + 1));
            i += 1;
        }
        assert(sends.subrange(0, i as int) =~= sends);
        match self.phase {
            Phase::Active => {
                if self.ctl.is_terminated() {
                    self.phase = Phase::Terminating;
                }
            },
            _ => {},
        }
        match self.phase {
            Phase::Terminating => {
                if self.calls.len() == 0 && self.batches.len() == 0 {
                    self.phase = Phase::Closed;
                    let ghost before = action_models(actions@);
                    actions.push(Action::Close);
                    assert(action_models(actions@) =~= before.push(ActionModel::Close));
                    assert(before.push(ActionModel::Close) =~= start + sends.push(ActionModel::Close));
                }
            },
            _ => {},
        }
    }
}

/// The state of an endpoint that was just made, before its server is told.
pub open spec fn fresh() -> EndpointModel {
    EndpointModel {
        phase: Phase::Active,
        next_token: 0,
        flights: Flights { calls: Seq::empty(), batches: Seq::empty() },
        ctl: ServerCtlModel { terminated: false, notes: Seq::empty() },
    }
}

impl<S: Server> Endpoint<S> {
    /// Sets a connection up: the server is told, and what it asked for in
    /// return is acted on. A server that asks for the end of the connection
    /// right away closes it, as nothing is in flight.
    pub fn new(server: S) -> (made: (Self, Vec<Action<S::RpcCallResult, S::NotificationResult>>))
        ensures
            made.0.server() == server,
            at_rest(made.0@),
            exists|told: ServerCtlModel|
                {
                    &&& #[trigger] server.initialized_effect(fresh().ctl, told)
                    &&& (made.0@, action_models(made.1@)) == settled::<
                        S::RpcCallResult,
                        S::NotificationResult,
                    >(EndpointModel { ctl: told, ..fresh() })
                },
    {
        let mut ctl = ServerCtl::new();
        server.initialized(&mut ctl);
        let ghost told = ctl@;
        let mut endpoint = Endpoint {
            server,
            ctl,
            phase: Phase::Active,
            next_token: 0,
            calls: Vec::new(),
            batches: Vec::new(),
        };
        let mut actions = Vec::new();
        assert(endpoint@.flights.calls =~= Seq::empty());
        assert(endpoint@.flights.batches =~= Seq::empty());
        assert(endpoint@ == (EndpointModel { ctl: told, ..fresh() }));
        assert(action_models(actions@) =~= Seq::empty());
        endpoint.settle(&mut actions);
        proof {
            let due = settled::<S::RpcCallResult, S::NotificationResult>(
                EndpointModel { ctl: told, ..fresh() },
            );
            assert(action_models(actions@) =~= due.1);
            assert(server.initialized_effect(fresh().ctl, told));
            assert((endpoint@, action_models(actions@)) == due);
        }
        (endpoint, actions)
    }

    /// Takes the outcome of the call under `token` and answers with what is
    /// due: the reply, or the batch that the reply completes, and the close
    /// of a connection that is terminating and has nothing more in flight.
    /// The reply goes out whatever else is in flight, so replies leave in the
    /// order in which their calls resolve.
    pub fn resolved(&mut self, token: u64, outcome: Result<Json, RpcError>) -> (actions: Vec<
        Action<S::RpcCallResult, S::NotificationResult>,
    >)
        requires
            at_rest(old(self)@),
        ensures
            at_rest(final(self)@),
            final(self).server() == old(self).server(),
            (final(self)@, action_models(actions@)) == resolved_model::<
                S::RpcCallResult,
                S::NotificationResult,
            >(old(self)@, token, result_model(outcome)),
    {
        let mut actions: Vec<Action<S::RpcCallResult, S::NotificationResult>> = Vec::new();
        let ghost before = self@;
        let at = find_call(&self.calls, token);
        if at < self.calls.len() {
            let call = self.calls.remove(at);
            assert(call_models(self.calls@) =~= before.flights.calls.remove(at as int));
            actions.push(
                Action::Send(Message::Single(Single::Response(Response { result: outcome, id: Some(call.id) }))),
            );
        } else {
            let b = find_batch(&self.batches, token);
            if b < self.batches.len() {
                let mut batch = self.batches.remove(b);
                assert(batch_models(self.batches@) =~= before.flights.batches.remove(b as int));
                assert(batch@ == before.flights.batches[b as int]);
                let j = find_call(&batch.calls, token);
                let ghost waiting = call_models(batch.calls@);
                let call = batch.calls.remove(j);
                batch.replies.push(Single::Response(Response { result: outcome, id: Some(call.id) }));
                let ghost replies = before.flights.batches[b as int].replies.push(
                    reply_model(call.id@, result_model(outcome)),
                );
                assert(single_models(batch.replies@) =~= replies);
                assert(call_models(batch.calls@) =~= waiting.remove(j as int));
                if batch.calls.len() == 0 {
                    actions.push(Action::Send(Message::Batch(batch.replies)));
                } else {
                    self.batches.insert(b, batch);
                    assert(batch_models(self.batches@) =~= before.flights.batches.update(
                        b as int,
                        BatchModel {
                            calls: before.flights.batches[b as int].calls.remove(j as int),
                            replies,
                        },
                    ));
                }
            }
        }
        let ghost sent = action_models(actions@);
        self.settle(&mut actions);
        proof {
            let (flights, reply) = landed(before.flights, token, result_model(outcome));
            assert(sent =~= match reply {
                Some(message) => seq![ActionModel::Send(message)],
                None => Seq::empty(),
            });
            let rest = settled::<S::RpcCallResult, S::NotificationResult>(
                EndpointModel { flights, ..before },
            ).1;
            assert(Seq::<ActionModel<S::RpcCallResult, S::NotificationResult>>::empty() + rest =~= rest);
        }
        actions
    }
}

/// What became of one message that was handed to the server.
pub enum Dispatched {
    /// Nothing is owed for it.
    Nothing,
    /// This reply is owed at once.
    Reply(Single),
    /// A call is in flight, and its reply is owed when it resolves.
    Pending(Call),
}

/// The mathematical model of what became of a message.
pub enum DispatchedModel {
    Nothing,
    Reply(SingleModel),
    Pending(CallModel),
}

impl View for Dispatched {
    type V = DispatchedModel;

    open spec fn view(&self) -> DispatchedModel {
        match self {
            Dispatched::Nothing => DispatchedModel::Nothing,
            Dispatched::Reply(reply) => DispatchedModel::Reply(reply@),
            Dispatched::Pending(call) => DispatchedModel::Pending(call@),
        }
    }
}

/// What the endpoint makes of the answer of the server to a request: the
/// token for the next call, the action that is due, and what became of the
/// request. A request that the server declines is answered with "method not
/// found". A call that the server takes goes in flight under the next token;
/// once the tokens have run out, it is answered with an internal error.
pub open spec fn call_taken<R, N>(next_token: u64, request: RequestModel, reply: Option<R>) -> (
    u64,
    Seq<ActionModel<R, N>>,
    DispatchedModel,
) {
    match reply {
        None => (
            next_token,
            Seq::empty(),
            DispatchedModel::Reply(reply_model(request.id, Err(method_not_found_model(request.method)))),
        ),
        Some(result) => if next_token < u64::MAX {
            (
                (next_token + 1) as u64,
                seq![ActionModel::Call { token: next_token, result }],
                DispatchedModel::Pending(CallModel { token: next_token, id: request.id }),
            )
        } else {
            (
                next_token,
                Seq::empty(),
                DispatchedModel::Reply(
                    reply_model(request.id, Err(internal_error_model("Too many calls"@))),
                ),
            )
        },
    }
}

/// What the endpoint makes of the answer of the server to a notification:
/// the action that is due. A notification that the server declines is
/// dropped without a word.
pub open spec fn note_taken<R, N>(reply: Option<N>) -> Seq<ActionModel<R, N>> {
    match reply {
        Some(result) => seq![ActionModel::Notify(result)],
        None => Seq::empty(),
    }
}

/// Whether the server, handed one message, may leave its handle and the
/// tokens as given, with these actions due and this outcome. A response is
/// not for the server side and does nothing.
pub open spec fn dispatched<S: Server>(
    server: S,
    single: SingleModel,
    ctl_before: ServerCtlModel,
    ctl_after: ServerCtlModel,
    token_before: u64,
    token_after: u64,
    due: Seq<ActionModel<S::RpcCallResult, S::NotificationResult>>,
    outcome: DispatchedModel,
) -> bool {
    match single {
        SingleModel::Request(request) => exists|reply: Option<S::RpcCallResult>|
            {
                &&& #[trigger] server.rpc_reply(
                    request.method,
                    request.params,
                    ctl_before,
                    ctl_after,
                    reply,
                )
                &&& (token_after, due, outcome) == call_taken::<
                    S::RpcCallResult,
                    S::NotificationResult,
                >(token_before, request, reply)
            },
        SingleModel::Notification(note) => exists|reply: Option<S::NotificationResult>|
            {
                &&& #[trigger] server.notification_reply(
                    note.method,
                    note.params,
                    ctl_before,
                    ctl_after,
                    reply,
                )
                &&& token_after == token_before
                &&& due == note_taken::<S::RpcCallResult, S::NotificationResult>(reply)
                &&& outcome is Nothing
            },
        SingleModel::Response(_) => {
            &&& ctl_after == ctl_before
            &&& token_after == token_before
            &&& due.len() == 0
            &&& outcome is Nothing
        },
    }
}

/// `call_taken`, carried out.
pub fn take_call<R, N>(next_token: u64, request: &Request, reply: Option<R>) -> (taken: (
    u64,
    Option<Action<R, N>>,
    Dispatched,
))
    ensures
        (
            taken.0,
            match taken.1 {
                Some(action) => seq![action@],
                None => Seq::empty(),
            },
            taken.2@,
        ) == call_taken::<R, N>(next_token, request@, reply),
{
    match reply {
        None => (
            next_token,
            None,
            Dispatched::Reply(
                Single::Response(
                    Response {
                        result: Err(RpcError::method_not_found(request.method.clone())),
                        id: Some(request.id.clone()),
                    },
                ),
            ),
        ),
        Some(result) => if next_token < u64::MAX {
            (
                next_token + 1,
                Some(Action::Call { token: next_token, result }),
                Dispatched::Pending(Call { token: next_token, id: request.id.clone() }),
            )
        } else {
            (
                next_token,
                None,
                Dispatched::Reply(
                    Single::Response(
                        Response {
                            result: Err(RpcError::internal_error(String::from_str("Too many calls"))),
                            id: Some(request.id.clone()),
                        },
                    ),
                ),
            )
        },
    }
}

impl<S: Server> Endpoint<S> {
    fn dispatch(
        &mut self,
        single: &Single,
        actions: &mut Vec<Action<S::RpcCallResult, S::NotificationResult>>,
    ) -> (outcome: Dispatched)
        ensures
            final(self).server() == old(self).server(),
            final(self)@.phase == old(self)@.phase,
            final(self)@.flights == old(self)@.flights,
            exists|due: Seq<ActionModel<S::RpcCallResult, S::NotificationResult>>|
                {
                    &&& #[trigger] dispatched(
                        old(self).server(),
                        single@,
                        old(self)@.ctl,
                        final(self)@.ctl,
                        old(self)@.next_token,
                        final(self)@.next_token,
                        due,
                        outcome@,
                    )
                    &&& action_models(final(actions)@) == action_models(old(actions)@) + due
                },
    {
        let ghost start = action_models(actions@);
        let ghost before = self@;
        match single {
            Single::Request(request) => {
                let reply = self.server.rpc(&mut self.ctl, request.method.as_str(), &request.params);
                let ghost answer = reply;
                let (next_token, action, outcome) = take_call::<
                    S::RpcCallResult,
                    S::NotificationResult,
                >(self.next_token, request, reply);
                self.next_token = next_token;
                let ghost given = action;
                let ghost due = match given {
                    Some(action) => seq![action@],
                    None => Seq::empty(),
                };
                match action {
                    Some(action) => {
                        actions.push(action);
                    },
                    None => {},
                }
                proof {
                    assert(action_models(actions@) =~= start + due);
                    assert(self.server().rpc_reply(
                        request@.method,
                        request@.params,
                        before.ctl,
                        self@.ctl,
                        answer,
                    ));
                    assert(dispatched(
                        old(self).server(),
                        single@,
                        old(self)@.ctl,
                        self@.ctl,
                        old(self)@.next_token,
                        self@.next_token,
                        due,
                        outcome@,
                    ));
                    assert(action_models(actions@) == action_models(old(actions)@) + due);
                }
                outcome
            },
            Single::Notification(note) => {
                let reply = self.server.notification(&mut self.ctl, note.method.as_str(), &note.params);
                let ghost answer = reply;
                let ghost due = note_taken::<S::RpcCallResult, S::NotificationResult>(reply);
                match reply {
                    Some(result) => {
                        actions.push(Action::Notify(result));
                    },
                    None => {},
                }
                proof {
                    assert(action_models(actions@) =~= start + due);
                    assert(self.server().notification_reply(
                        note@.method,
                        note@.params,
                        before.ctl,
                        self@.ctl,
                        answer,
                    ));
                    assert(dispatched(
                        self.server(),
                        single@,
                        before.ctl,
                        self@.ctl,
                        before.next_token,
                        self@.next_token,
                        due,
                        Dispatched::Nothing@,
                    ));
                }
                Dispatched::Nothing
            },
            Single::Response(_) => {
                proof {
                    let due = Seq::<ActionModel<S::RpcCallResult, S::NotificationResult>>::empty();
                    assert(action_models(actions@) =~= start + due);
                    assert(dispatched(
                        self.server(),
                        single@,
                        before.ctl,
                        self@.ctl,
                        before.next_token,
                        self@.next_token,
                        due,
                        Dispatched::Nothing@,
                    ));
                }
                Dispatched::Nothing
            },
        }
    }
}

/// How far the handling of a frame has come: the handle of the server and
/// the next token as they stand, the actions that are due so far, and the
/// calls and replies that the frame has brought about.
pub struct Run<R, N> {
    pub ctl: ServerCtlModel,
    pub token: u64,
    pub due: Seq<ActionModel<R, N>>,
    pub calls: Seq<CallModel>,
    pub replies: Seq<SingleModel>,
}

/// The handling of a frame before its first message.
pub open spec fn run_start<R, N>(before: EndpointModel) -> Run<R, N> {
    Run {
        ctl: before.ctl,
        token: before.next_token,
        due: Seq::empty(),
        calls: Seq::empty(),
        replies: Seq::empty(),
    }
}

/// Whether one more message, handed to the server, may bring the handling
/// of a frame from `before` to `after`.
pub open spec fn run_step<S: Server>(
    server: S,
    single: SingleModel,
    before: Run<S::RpcCallResult, S::NotificationResult>,
    after: Run<S::RpcCallResult, S::NotificationResult>,
) -> bool {
    exists|due: Seq<ActionModel<S::RpcCallResult, S::NotificationResult>>, outcome: DispatchedModel|
        {
            &&& #[trigger] dispatched(
                server,
                single,
                before.ctl,
                after.ctl,
                before.token,
                after.token,
                due,
                outcome,
            )
            &&& after.due == before.due + due
            &&& match outcome {
                DispatchedModel::Nothing => after.calls == before.calls && after.replies
                    == before.replies,
                DispatchedModel::Reply(reply) => after.calls == before.calls && after.replies
                    == before.replies.push(reply),
                DispatchedModel::Pending(call) => after.calls == before.calls.push(call)
                    && after.replies == before.replies,
            }
        }
}

/// Whether the first `upto` entries of a batch, handed to the server in
/// order, may bring the handling of the frame from `start` to `end`.
pub open spec fn run_through<S: Server>(
    server: S,
    entries: Seq<SingleModel>,
    upto: int,
    start: Run<S::RpcCallResult, S::NotificationResult>,
    end: Run<S::RpcCallResult, S::NotificationResult>,
) -> bool
    decreases upto,
{
    if upto <= 0 {
        end == start
    } else {
        exists|mid: Run<S::RpcCallResult, S::NotificationResult>|
            {
                &&& run_through(server, entries, upto - 1, start, mid)
                &&& #[trigger] run_step(server, entries[upto - 1], mid, end)
            }
    }
}

/// The actions that send replies one by one.
pub open spec fn reply_actions<R, N>(replies: Seq<SingleModel>) -> Seq<ActionModel<R, N>> {
    Seq::new(replies.len(), |i: int| ActionModel::Send(MessageModel::Single(replies[i])))
}

/// What is due once a message of its own was handed to the server: what
/// the server started, the reply where one is owed at once, and what
/// `settled` adds. A call that was taken is in flight.
pub open spec fn single_done<R, N>(before: EndpointModel, run: Run<R, N>) -> (
    EndpointModel,
    Seq<ActionModel<R, N>>,
) {
    let flights = Flights { calls: before.flights.calls + run.calls, ..before.flights };
    let (after, rest) = settled::<R, N>(
        EndpointModel { ctl: run.ctl, next_token: run.token, flights, ..before },
    );
    (after, run.due + reply_actions(run.replies) + rest)
}

/// What is due once a batch was handed to the server entry by entry. Where
/// no call of the batch is in flight, its replies go out as one batch, or
/// nothing goes out where there are none. Else the batch is kept until its
/// last call resolves.
pub open spec fn batch_done<R, N>(before: EndpointModel, run: Run<R, N>) -> (
    EndpointModel,
    Seq<ActionModel<R, N>>,
) {
    let flights = if run.calls.len() == 0 {
        before.flights
    } else {
        Flights {
            batches: before.flights.batches.push(BatchModel { calls: run.calls, replies: run.replies }),
            ..before.flights
        }
    };
    let sends = if run.calls.len() == 0 && run.replies.len() > 0 {
        seq![ActionModel::Send(MessageModel::Batch(run.replies))]
    } else {
        Seq::empty()
    };
    let (after, rest) = settled::<R, N>(
        EndpointModel { ctl: run.ctl, next_token: run.token, flights, ..before },
    );
    (after, run.due + sends + rest)
}

/// Whether an active endpoint in the state `before`, given one message,
/// may come to the state `after` with the actions `due`.
pub open spec fn single_handled<S: Server>(
    server: S,
    before: EndpointModel,
    single: SingleModel,
    after: EndpointModel,
    due: Seq<ActionModel<S::RpcCallResult, S::NotificationResult>>,
) -> bool {
    exists|run: Run<S::RpcCallResult, S::NotificationResult>|
        {
            &&& #[trigger] run_step(server, single, run_start(before), run)
            &&& (after, due) == single_done(before, run)
        }
}

/// Whether an active endpoint in the state `before`, given a batch, may
/// come to the state `after` with the actions `due`.
pub open spec fn batch_handled<S: Server>(
    server: S,
    before: EndpointModel,
    entries: Seq<SingleModel>,
    after: EndpointModel,
    due: Seq<ActionModel<S::RpcCallResult, S::NotificationResult>>,
) -> bool {
    exists|run: Run<S::RpcCallResult, S::NotificationResult>|
        {
            &&& #[trigger] run_through(server, entries, entries.len() as int, run_start(before), run)
            &&& (after, due) == batch_done(before, run)
        }
}

/// The action that answers a frame that is no message: its error goes out
/// under the id `null`.
pub open spec fn refusal_action<R, N>(error: DecodeErrorModel) -> ActionModel<R, N> {
    ActionModel::Send(
        MessageModel::Single(
            SingleModel::Response(ResponseModel { result: Err(refusal_model(error)), id: None }),
        ),
    )
}

/// Whether an endpoint in the state `before`, given a frame, may come to
/// the state `after` with the actions `due`.
///
/// Only an active endpoint takes frames. An empty line does nothing. A
/// frame that is no message is answered with its error, and the connection
/// goes on. A message is handed to the server; a batch is handed to it
/// entry by entry, in order.
pub open spec fn handled<S: Server>(
    server: S,
    before: EndpointModel,
    frame: FrameModel,
    after: EndpointModel,
    due: Seq<ActionModel<S::RpcCallResult, S::NotificationResult>>,
) -> bool {
    if !(before.phase is Active) {
        after == before && due.len() == 0
    } else {
        match frame {
            FrameModel::Skip => after == before && due.len() == 0,
            FrameModel::Broken(error) => after == before && due == seq![
                refusal_action::<S::RpcCallResult, S::NotificationResult>(error),
            ],
            FrameModel::Message(MessageModel::Single(single)) => single_handled(
                server,
                before,
                single,
                after,
                due,
            ),
            FrameModel::Message(MessageModel::Batch(entries)) => batch_handled(
                server,
                before,
                entries,
                after,
                due,
            ),
        }
    }
}

impl<S: Server> Endpoint<S> {
    /// Asks for the end of the connection, as the server can through its
    /// handle. No frame is taken from now on. The connection closes at once
    /// where nothing is in flight, and else when the last call has resolved.
    pub fn terminate(&mut self) -> (actions: Vec<Action<S::RpcCallResult, S::NotificationResult>>)
        requires
            at_rest(old(self)@),
        ensures
            at_rest(final(self)@),
            final(self).server() == old(self).server(),
            (final(self)@, action_models(actions@)) == settled::<
                S::RpcCallResult,
                S::NotificationResult,
            >(EndpointModel { ctl: ServerCtlModel { terminated: true, ..old(self)@.ctl }, ..old(self)@ }),
    {
        let mut actions: Vec<Action<S::RpcCallResult, S::NotificationResult>> = Vec::new();
        let ghost start = action_models(actions@);
        self.ctl.terminate();
        let ghost asked = self@;
        self.settle(&mut actions);
        assert(action_models(actions@) =~= settled::<S::RpcCallResult, S::NotificationResult>(asked).1)
            by {
            assert(start =~= Seq::empty());
        }
        actions
    }

    /// Sends a notification to the other side, as the server can through its
    /// handle. On a closed connection nothing is sent.
    pub fn notify(&mut self, method: String, params: Option<Json>) -> (actions: Vec<
        Action<S::RpcCallResult, S::NotificationResult>,
    >)
        requires
            at_rest(old(self)@),
        ensures
            at_rest(final(self)@),
            final(self).server() == old(self).server(),
            old(self)@.phase is Closed ==> final(self)@ == old(self)@ && actions@.len() == 0,
            !(old(self)@.phase is Closed) ==> (final(self)@, action_models(actions@)) == settled::<
                S::RpcCallResult,
                S::NotificationResult,
            >(
                EndpointModel {
                    ctl: ServerCtlModel {
                        notes: seq![NotificationModel { method: method@, params: optional_model(params) }],
                        ..old(self)@.ctl
                    },
                    ..old(self)@
                },
            ),
    {
        let mut actions: Vec<Action<S::RpcCallResult, S::NotificationResult>> = Vec::new();
        let ghost start = action_models(actions@);
        match self.phase {
            Phase::Closed => {
                return actions;
            },
            _ => {},
        }
        self.ctl.notify(method, params);
        let ghost asked = self@;
        assert(asked.ctl.notes =~= seq![
            NotificationModel { method: method@, params: optional_model(params) },
        ]);
        self.settle(&mut actions);
        assert(action_models(actions@) =~= settled::<S::RpcCallResult, S::NotificationResult>(asked).1)
            by {
            assert(start =~= Seq::empty());
        }
        actions
    }
}

/// How far the handling of a frame has come, for an endpoint as it stands
/// and what was gathered so far.
pub open spec fn run_of<R, N>(
    endpoint: EndpointModel,
    actions: Seq<Action<R, N>>,
    calls: Seq<Call>,
    replies: Seq<Single>,
) -> Run<R, N> {
    Run {
        ctl: endpoint.ctl,
        token: endpoint.next_token,
        due: action_models(actions),
        calls: call_models(calls),
        replies: single_models(replies),
    }
}

impl<S: Server> Endpoint<S> {
    fn step(
        &mut self,
        single: &Single,
        actions: &mut Vec<Action<S::RpcCallResult, S::NotificationResult>>,
        calls: &mut Vec<Call>,
        replies: &mut Vec<Single>,
    )
        ensures
            final(self).server() == old(self).server(),
            final(self)@.phase == old(self)@.phase,
            final(self)@.flights == old(self)@.flights,
            run_step(
                old(self).server(),
                single@,
                run_of(old(self)@, old(actions)@, old(calls)@, old(replies)@),
                run_of(final(self)@, final(actions)@, final(calls)@, final(replies)@),
            ),
    {
        let ghost before = run_of(self@, actions@, calls@, replies@);
        let outcome = self.dispatch(single, actions);
        let ghost due = choose|due: Seq<ActionModel<S::RpcCallResult, S::NotificationResult>>|
            {
                &&& #[trigger] dispatched(
                    self.server(),
                    single@,
                    before.ctl,
                    self@.ctl,
                    before.token,
                    self@.next_token,
                    due,
                    outcome@,
                )
                &&& action_models(actions@) == before.due + due
            };
        let ghost became = outcome@;
        match outcome {
            Dispatched::Nothing => {},
            Dispatched::Reply(reply) => {
                replies.push(reply);
                assert(single_models(replies@) =~= before.replies.push(reply@));
            },
            Dispatched::Pending(call) => {
                calls.push(call);
                assert(call_models(calls@) =~= before.calls.push(call@));
            },
        }
        proof {
            let after = run_of(self@, actions@, calls@, replies@);
            assert(dispatched(
                self.server(),
                single@,
                before.ctl,
                after.ctl,
                before.token,
                after.token,
                due,
                became,
            ));
        }
    }

    /// Takes a frame and answers with what is due for it. While the
    /// connection is active, a message goes to the server and a frame that is
    /// no message is answered with its error; later frames are not taken.
    pub fn handle_frame(&mut self, frame: Frame) -> (actions: Vec<
        Action<S::RpcCallResult, S::NotificationResult>,
    >)
        requires
            at_rest(old(self)@),
        ensures
            at_rest(final(self)@),
            final(self).server() == old(self).server(),
            handled(old(self).server(), old(self)@, frame@, final(self)@, action_models(actions@)),
    {
        let mut actions: Vec<Action<S::RpcCallResult, S::NotificationResult>> = Vec::new();
        let ghost before = self@;
        let ghost given = frame@;
        assert(action_models(actions@) =~= Seq::empty());
        match self.phase {
            Phase::Active => {},
            _ => {
                return actions;
            },
        }
        let mut calls: Vec<Call> = Vec::new();
        let mut replies: Vec<Single> = Vec::new();
        assert(run_of(self@, actions@, calls@, replies@) =~= run_start(before)) by {
            assert(call_models(calls@) =~= Seq::empty());
            assert(single_models(replies@) =~= Seq::empty());
        }
        match frame {
            Frame::Skip => actions,
            Frame::Broken(error) => {
                actions.push(Action::Send(Message::Single(Single::Response(error.reply()))));
                assert(action_models(actions@) =~= seq![
                    refusal_action::<S::RpcCallResult, S::NotificationResult>(given->Broken_0),
                ]);
                actions
            },
            Frame::Message(Message::Single(single)) => {
                self.step(&single, &mut actions, &mut calls, &mut replies);
                let ghost run = run_of(self@, actions@, calls@, replies@);
                let mut i: usize = 0;
                assert(action_models(actions@) =~= run.due + reply_actions::<
                    S::RpcCallResult,
                    S::NotificationResult,
                >(run.replies).subrange(0, 0));
                while i < replies.len()
                    invariant
                        i <= replies.len(),
                        run.replies == single_models(replies@),
                        action_models(actions@) == run.due + reply_actions::<
                            S::RpcCallResult,
                            S::NotificationResult,
                        >(run.replies).subrange(0, i as int),
                    decreases replies.len() - i,
                {
                    let ghost sent = action_models(actions@);
                    actions.push(Action::Send(Message::Single(replies[i].clone_single())));
                    assert(action_models(actions@) =~= sent.push(
                        ActionModel::Send(MessageModel::Single(run.replies[i as int])),
                    ));
                    assert(action_models(actions@) =~= run.due + reply_actions::<
                        S::RpcCallResult,
                        S::NotificationResult,
                    >(run.replies).subrange(0, i + 1));
                    i += 1;
                }
                assert(reply_actions::<S::RpcCallResult, S::NotificationResult>(run.replies).subrange(
                    0,
                    i as int,
                ) =~= reply_actions::<S::RpcCallResult, S::NotificationResult>(run.replies));
                self.calls.append(&mut calls);
                assert(call_models(self.calls@) =~= before.flights.calls + run.calls);
                assert(self@.flights.batches == before.flights.batches);
                self.settle(&mut actions);
                assert(run_step(self.server(), single@, run_start(before), run));
                assert((self@, action_models(actions@)) == single_done(before, run));
                actions
            },
            Frame::Message(Message::Batch(entries)) => {
                let mut i: usize = 0;
                while i < entries.len()
                    invariant
                        i <= entries.len(),
                        self.server() == old(self).server(),
                        given == FrameModel::Message(MessageModel::Batch(single_models(entries@))),
                        before.phase is Active,
                        at_rest(before),
                        self@.phase == before.phase,
                        self@.flights == before.flights,
                        run_through(
                            self.server(),
                            single_models(entries@),
                            i as int,
                            run_start(before),
                            run_of(self@, actions@, calls@, replies@),
                        ),
                    decreases entries.len() - i,
                {
                    let ghost mid = run_of(self@, actions@, calls@, replies@);
                    self.step(&entries[i], &mut actions, &mut calls, &mut replies);
                    proof {
                        let end = run_of(self@, actions@, calls@, replies@);
                        assert(run_step(self.server(), single_models(entries@)[(i + 1) - 1], mid, end));
                    }
                    i += 1;
                }
                let ghost run = run_of(self@, actions@, calls@, replies@);
                let ghost given_entries = single_models(entries@);
                let ghost server = self.server();
                assert(run_through(server, given_entries, given_entries.len() as int, run_start(before), run));
                if calls.len() == 0 {
                    if replies.len() > 0 {
                        actions.push(Action::Send(Message::Batch(replies)));
                        assert(action_models(actions@) =~= run.due + seq![
                            ActionModel::<S::RpcCallResult, S::NotificationResult>::Send(
                                MessageModel::Batch(run.replies),
                            ),
                        ]);
                    } else {
                        assert(action_models(actions@) =~= run.due + Seq::<
                            ActionModel<S::RpcCallResult, S::NotificationResult>,
                        >::empty());
                    }
                } else {
                    self.batches.push(OpenBatch { calls, replies });
                    assert(batch_models(self.batches@) =~= before.flights.batches.push(
                        BatchModel { calls: run.calls, replies: run.replies },
                    ));
                    assert(action_models(actions@) =~= run.due + Seq::<
                        ActionModel<S::RpcCallResult, S::NotificationResult>,
                    >::empty());
                }
                self.settle(&mut actions);
                assert((self@, action_models(actions@)) == batch_done(before, run));
                assert(batch_handled(server, before, given_entries, self@, action_models(actions@)));
                actions
            },
        }
    }
}

} // verus!
