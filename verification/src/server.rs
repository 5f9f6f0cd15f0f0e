use vstd::prelude::*;
use std::marker::PhantomData;
use crate::json::{Json, JsonModel, optional_model};
use crate::error::RpcError;
use crate::message::{Notification, NotificationModel};

verus! {

/// The handle through which a server speaks to its connection.
///
/// It records what the server asks for: the end of the connection, and
/// notifications to send to the other side. The endpoint reads the record
/// after each callback and acts on it.
pub struct ServerCtl {
    terminated: bool,
    notes: Vec<Notification>,
}

/// The mathematical model of a control handle.
pub struct ServerCtlModel {
    /// Whether the end of the connection was asked for.
    pub terminated: bool,
    /// The notifications that wait to be sent, oldest first.
    pub notes: Seq<NotificationModel>,
}

/// The models of a sequence of notifications, in order.
pub open spec fn note_models(notes: Seq<Notification>) -> Seq<NotificationModel> {
    Seq::new(notes.len(), |i: int| notes[i]@)
}

impl View for ServerCtl {
    type V = ServerCtlModel;

    closed spec fn view(&self) -> ServerCtlModel {
        ServerCtlModel { terminated: self.terminated, notes: note_models(self.notes@) }
    }
}

impl ServerCtl {
    /// A handle through which nothing was asked yet.
    pub fn new() -> (ctl: ServerCtl)
        ensures
            ctl@ == (ServerCtlModel { terminated: false, notes: Seq::empty() }),
    {
        let ctl = ServerCtl { terminated: false, notes: Vec::new() };
        assert(ctl@.notes =~= Seq::empty());
        ctl
    }

    /// Asks for the end of the connection. Replies that are still owed are
    /// sent before it closes. Asking twice is the same as asking once.
    pub fn terminate(&mut self)
        ensures
            final(self)@ == (ServerCtlModel { terminated: true, ..old(self)@ }),
    {
        self.terminated = true;
    }

    /// Queues a notification for the other side.
    pub fn notify(&mut self, method: String, params: Option<Json>)
        ensures
            final(self)@ == (ServerCtlModel {
                notes: old(self)@.notes.push(
                    NotificationModel { method: method@, params: optional_model(params) },
                ),
                ..old(self)@
            }),
    {
        self.notes.push(Notification { method, params });
        assert(self@.notes =~= old(self)@.notes.push(
            NotificationModel { method: method@, params: optional_model(params) },
        ));
    }

    /// Whether the end of the connection was asked for.
    pub fn is_terminated(&self) -> (r: bool)
        ensures
            r == self@.terminated,
    {
        self.terminated
    }

    /// Takes the queued notifications out, oldest first, and leaves none.
    pub fn take_notifications(&mut self) -> (notes: Vec<Notification>)
        ensures
            note_models(notes@) == old(self)@.notes,
            final(self)@ == (ServerCtlModel { notes: Seq::empty(), ..old(self)@ }),
    {
        let mut notes: Vec<Notification> = Vec::new();
        std::mem::swap(&mut notes, &mut self.notes);
        assert(self@.notes =~= Seq::empty());
        notes
    }
}

/// What an application implements to answer calls and notifications.
///
/// A server answers `None` to a method that it does not know: that is how
/// several servers are put together, and no error.
///
/// Each server writes all three callbacks; the trait gives no body for any
/// of them. A server that has nothing to do for one of them writes the body
/// that does nothing: `None` for `rpc` and `notification`, and an empty
/// body for `initialized`.
///
/// The three `spec` functions say what an implementation may do, and the
/// contracts of the callbacks hold it to them. As they stand here they say
/// that the server does nothing: it declines every call and every
/// notification, and it leaves the handle alone. A server that does more
/// states its own.
pub trait Server {
    /// What a call yields where it succeeds.
    type Success;

    /// What `rpc` hands back for a call that it takes: the result, now or later.
    type RpcCallResult;

    /// What `notification` hands back for a notification that it takes.
    type NotificationResult;

    /// Whether `rpc`, called with `method` and `params` on a handle in the
    /// state `before`, may answer `reply` and leave the handle in the state
    /// `after`. Unless a server states otherwise, it declines and leaves the
    /// handle as it was.
    open spec fn rpc_reply(
        &self,
        method: Seq<char>,
        params: Option<JsonModel>,
        before: ServerCtlModel,
        after: ServerCtlModel,
        reply: Option<Self::RpcCallResult>,
    ) -> bool {
        reply is None && after == before
    }

    /// The same for `notification`.
    open spec fn notification_reply(
        &self,
        method: Seq<char>,
        params: Option<JsonModel>,
        before: ServerCtlModel,
        after: ServerCtlModel,
        reply: Option<Self::NotificationResult>,
    ) -> bool {
        reply is None && after == before
    }

    /// Whether `initialized`, called on a handle in the state `before`, may
    /// leave it in the state `after`. Unless a server states otherwise, it
    /// leaves the handle as it was.
    open spec fn initialized_effect(&self, before: ServerCtlModel, after: ServerCtlModel) -> bool {
        after == before
    }

    /// Called when the other side calls `method`. `None` says that the
    /// method is unknown to this server.
    fn rpc(&self, ctl: &mut ServerCtl, method: &str, params: &Option<Json>) -> (reply: Option<
        Self::RpcCallResult,
    >)
        ensures
            self.rpc_reply(method@, optional_model(*params), old(ctl)@, final(ctl)@, reply),
    ;

    /// Called when the other side sends the notification `method`. `None`
    /// says that the method is unknown to this server.
    fn notification(&self, ctl: &mut ServerCtl, method: &str, params: &Option<Json>) -> (reply: Option<
        Self::NotificationResult,
    >)
        ensures
            self.notification_reply(method@, optional_model(*params), old(ctl)@, final(ctl)@, reply),
    ;

    /// Called once, when the connection is set up.
    fn initialized(&self, ctl: &mut ServerCtl)
        ensures
            self.initialized_effect(old(ctl)@, final(ctl)@),
    ;
}

/// A server seen without its own types: what a chain holds. Every `Server`
/// is one, for the result types that it hands back.
pub trait DynServer<R, N> {
    /// `Server::rpc_reply` of the server behind.
    spec fn dyn_rpc_reply(
        &self,
        method: Seq<char>,
        params: Option<JsonModel>,
        before: ServerCtlModel,
        after: ServerCtlModel,
        reply: Option<R>,
    ) -> bool;

    /// `Server::notification_reply` of the server behind.
    spec fn dyn_notification_reply(
        &self,
        method: Seq<char>,
        params: Option<JsonModel>,
        before: ServerCtlModel,
        after: ServerCtlModel,
        reply: Option<N>,
    ) -> bool;

    /// `Server::initialized_effect` of the server behind.
    spec fn dyn_initialized_effect(&self, before: ServerCtlModel, after: ServerCtlModel) -> bool;

    /// `Server::rpc` of the server behind.
    fn dyn_rpc(&self, ctl: &mut ServerCtl, method: &str, params: &Option<Json>) -> (reply: Option<R>)
        ensures
            self.dyn_rpc_reply(method@, optional_model(*params), old(ctl)@, final(ctl)@, reply),
    ;

    /// `Server::notification` of the server behind.
    fn dyn_notification(&self, ctl: &mut ServerCtl, method: &str, params: &Option<Json>) -> (reply:
        Option<N>)
        ensures
            self.dyn_notification_reply(method@, optional_model(*params), old(ctl)@, final(ctl)@, reply),
    ;

    /// `Server::initialized` of the server behind.
    fn dyn_initialized(&self, ctl: &mut ServerCtl)
        ensures
            self.dyn_initialized_effect(old(ctl)@, final(ctl)@),
    ;
}

impl<S: Server> DynServer<S::RpcCallResult, S::NotificationResult> for S {
    open spec fn dyn_rpc_reply(
        &self,
        method: Seq<char>,
        params: Option<JsonModel>,
        before: ServerCtlModel,
        after: ServerCtlModel,
        reply: Option<S::RpcCallResult>,
    ) -> bool {
        self.rpc_reply(method, params, before, after, reply)
    }

    open spec fn dyn_notification_reply(
        &self,
        method: Seq<char>,
        params: Option<JsonModel>,
        before: ServerCtlModel,
        after: ServerCtlModel,
        reply: Option<S::NotificationResult>,
    ) -> bool {
        self.notification_reply(method, params, before, after, reply)
    }

    open spec fn dyn_initialized_effect(&self, before: ServerCtlModel, after: ServerCtlModel) -> bool {
        self.initialized_effect(before, after)
    }

    fn dyn_rpc(&self, ctl: &mut ServerCtl, method: &str, params: &Option<Json>) -> (reply: Option<
        S::RpcCallResult,
    >) {
        self.rpc(ctl, method, params)
    }

    fn dyn_notification(&self, ctl: &mut ServerCtl, method: &str, params: &Option<Json>) -> (reply:
        Option<S::NotificationResult>) {
        self.notification(ctl, method, params)
    }

    fn dyn_initialized(&self, ctl: &mut ServerCtl) {
        self.initialized(ctl)
    }
}

/// A server that knows no method.
///
/// It asks for the end of the connection as soon as the connection is set
/// up: it serves an endpoint that only calls the other side.
pub struct Empty;

impl Server for Empty {
    type Success = ();

    type RpcCallResult = Result<(), RpcError>;

    type NotificationResult = Result<(), ()>;

    open spec fn initialized_effect(&self, before: ServerCtlModel, after: ServerCtlModel) -> bool {
        after == (ServerCtlModel { terminated: true, ..before })
    }

    fn rpc(&self, ctl: &mut ServerCtl, method: &str, params: &Option<Json>) -> (reply: Option<
        Self::RpcCallResult,
    >) {
        None
    }

    fn notification(&self, ctl: &mut ServerCtl, method: &str, params: &Option<Json>) -> (reply: Option<
        Self::NotificationResult,
    >) {
        None
    }

    fn initialized(&self, ctl: &mut ServerCtl) {
        ctl.terminate();
    }
}

/// A server made ready for a chain.
///
/// It wraps another server and brings what that server hands back to the
/// shape that all members of a chain share: `R` for a call and `N` for a
/// notification. The two conversions are given when the wrapper is made: an
/// application passes the ones that fit the way it runs its calls.
#[verifier::reject_recursive_types(R)]
#[verifier::reject_recursive_types(N)]
pub struct AbstractServer<S, R, N, ER, EN> where
    S: Server,
    ER: Fn(S::RpcCallResult) -> R,
    EN: Fn(S::NotificationResult) -> N,
 {
    server: S,
    erase_rpc: ER,
    erase_notification: EN,
    shape: PhantomData<(R, N)>,
}

impl<S, R, N, ER, EN> AbstractServer<S, R, N, ER, EN> where
    S: Server,
    ER: Fn(S::RpcCallResult) -> R,
    EN: Fn(S::NotificationResult) -> N,
 {
    #[verifier::type_invariant]
    spec fn conversions_are_total(self) -> bool {
        &&& forall|result: S::RpcCallResult| call_requires(self.erase_rpc, (result,))
        &&& forall|result: S::NotificationResult| call_requires(self.erase_notification, (result,))
    }

    /// The server inside.
    pub closed spec fn inner(self) -> S {
        self.server
    }

    /// The conversion for what the server hands back for a call.
    pub closed spec fn rpc_conversion(self) -> ER {
        self.erase_rpc
    }

    /// The conversion for what the server hands back for a notification.
    pub closed spec fn notification_conversion(self) -> EN {
        self.erase_notification
    }

    /// Wraps `server`. Each conversion must take every value of its type.
    pub fn new(server: S, erase_rpc: ER, erase_notification: EN) -> (wrapped: Self)
        requires
            forall|result: S::RpcCallResult| call_requires(erase_rpc, (result,)),
            forall|result: S::NotificationResult| call_requires(erase_notification, (result,)),
        ensures
            wrapped.inner() == server,
            wrapped.rpc_conversion() == erase_rpc,
            wrapped.notification_conversion() == erase_notification,
    {
        AbstractServer { server, erase_rpc, erase_notification, shape: PhantomData }
    }

    /// Unwraps the server and gives the one inside back.
    pub fn into_inner(self) -> (server: S)
        ensures
            server == self.inner(),
    {
        self.server
    }
}

impl<S, R, N, ER, EN> Server for AbstractServer<S, R, N, ER, EN> where
    S: Server,
    ER: Fn(S::RpcCallResult) -> R,
    EN: Fn(S::NotificationResult) -> N,
 {
    type Success = Json;

    type RpcCallResult = R;

    type NotificationResult = N;

    /// The server inside declined, or it took the call and `reply` is what
    /// the conversion makes of its answer.
    open spec fn rpc_reply(
        &self,
        method: Seq<char>,
        params: Option<JsonModel>,
        before: ServerCtlModel,
        after: ServerCtlModel,
        reply: Option<R>,
    ) -> bool {
        match reply {
            None => self.inner().rpc_reply(method, params, before, after, None),
            Some(erased) => exists|answer: S::RpcCallResult|
                {
                    &&& #[trigger] self.inner().rpc_reply(method, params, before, after, Some(answer))
                    &&& call_ensures(self.rpc_conversion(), (answer,), erased)
                },
        }
    }

    /// The same for a notification.
    open spec fn notification_reply(
        &self,
        method: Seq<char>,
        params: Option<JsonModel>,
        before: ServerCtlModel,
        after: ServerCtlModel,
        reply: Option<N>,
    ) -> bool {
        match reply {
            None => self.inner().notification_reply(method, params, before, after, None),
            Some(erased) => exists|answer: S::NotificationResult|
                {
                    &&& #[trigger] self.inner().notification_reply(
                        method,
                        params,
                        before,
                        after,
                        Some(answer),
                    )
                    &&& call_ensures(self.notification_conversion(), (answer,), erased)
                },
        }
    }

    /// That of the server inside.
    open spec fn initialized_effect(&self, before: ServerCtlModel, after: ServerCtlModel) -> bool {
        self.inner().initialized_effect(before, after)
    }

    fn rpc(&self, ctl: &mut ServerCtl, method: &str, params: &Option<Json>) -> (reply: Option<R>) {
        proof {
            use_type_invariant(self);
        }
        match self.server.rpc(ctl, method, params) {
            Some(answer) => {
                let ghost given = answer;
                let erased = (self.erase_rpc)(answer);
                assert(self.inner().rpc_reply(
                    method@,
                    optional_model(*params),
                    old(ctl)@,
                    ctl@,
                    Some(given),
                ) && call_ensures(self.rpc_conversion(), (given,), erased));
                Some(erased)
            },
            None => None,
        }
    }

    fn notification(&self, ctl: &mut ServerCtl, method: &str, params: &Option<Json>) -> (reply: Option<
        N,
    >) {
        proof {
            use_type_invariant(self);
        }
        match self.server.notification(ctl, method, params) {
            Some(answer) => {
                let ghost given = answer;
                let erased = (self.erase_notification)(answer);
                assert(self.inner().notification_reply(
                    method@,
                    optional_model(*params),
                    old(ctl)@,
                    ctl@,
                    Some(given),
                ) && call_ensures(self.notification_conversion(), (given,), erased));
                Some(erased)
            },
            None => None,
        }
    }

    fn initialized(&self, ctl: &mut ServerCtl) {
        self.server.initialized(ctl)
    }
}

/// A server as a chain holds it.
pub type BoxServer<R, N> = Box<dyn DynServer<R, N>>;

/// A server that puts several servers together.
///
/// A call or a notification is offered to the members in order, and the
/// first that takes it answers; where none takes it, the chain does not
/// either. The set-up of the connection is told to every member.
#[verifier::reject_recursive_types(R)]
#[verifier::reject_recursive_types(N)]
pub struct ServerChain<R, N> {
    members: Vec<BoxServer<R, N>>,
}

/// Whether the first `upto` members, offered a call one after the other on
/// a handle in the state `before`, may all decline and leave the handle in
/// the state `after`.
pub open spec fn all_declined_rpc<R, N>(
    members: Seq<BoxServer<R, N>>,
    upto: int,
    method: Seq<char>,
    params: Option<JsonModel>,
    before: ServerCtlModel,
    after: ServerCtlModel,
) -> bool
    decreases upto,
{
    if upto <= 0 {
        after == before
    } else {
        exists|mid: ServerCtlModel|
            {
                &&& all_declined_rpc(members, upto - 1, method, params, before, mid)
                &&& #[trigger] members[upto - 1].dyn_rpc_reply(method, params, mid, after, None)
            }
    }
}

/// What a chain of `members` may answer to a call: nothing, where all
/// decline; else the answer of the first member that takes the call.
pub open spec fn chain_rpc_reply<R, N>(
    members: Seq<BoxServer<R, N>>,
    method: Seq<char>,
    params: Option<JsonModel>,
    before: ServerCtlModel,
    after: ServerCtlModel,
    reply: Option<R>,
) -> bool {
    match reply {
        None => all_declined_rpc(members, members.len() as int, method, params, before, after),
        Some(answer) => exists|k: int, mid: ServerCtlModel|
            {
                &&& 0 <= k < members.len()
                &&& all_declined_rpc(members, k, method, params, before, mid)
                &&& #[trigger] members[k].dyn_rpc_reply(method, params, mid, after, Some(answer))
            },
    }
}

/// `all_declined_rpc` for a notification.
pub open spec fn all_declined_notification<R, N>(
    members: Seq<BoxServer<R, N>>,
    upto: int,
    method: Seq<char>,
    params: Option<JsonModel>,
    before: ServerCtlModel,
    after: ServerCtlModel,
) -> bool
    decreases upto,
{
    if upto <= 0 {
        after == before
    } else {
        exists|mid: ServerCtlModel|
            {
                &&& all_declined_notification(members, upto - 1, method, params, before, mid)
                &&& #[trigger] members[upto - 1].dyn_notification_reply(method, params, mid, after, None)
            }
    }
}

/// `chain_rpc_reply` for a notification.
pub open spec fn chain_notification_reply<R, N>(
    members: Seq<BoxServer<R, N>>,
    method: Seq<char>,
    params: Option<JsonModel>,
    before: ServerCtlModel,
    after: ServerCtlModel,
    reply: Option<N>,
) -> bool {
    match reply {
        None => all_declined_notification(members, members.len() as int, method, params, before, after),
        Some(answer) => exists|k: int, mid: ServerCtlModel|
            {
                &&& 0 <= k < members.len()
                &&& all_declined_notification(members, k, method, params, before, mid)
                &&& #[trigger] members[k].dyn_notification_reply(method, params, mid, after, Some(answer))
            },
    }
}

/// Whether the first `upto` members, told of the set-up one after the other
/// on a handle in the state `before`, may leave it in the state `after`.
pub open spec fn all_initialized<R, N>(
    members: Seq<BoxServer<R, N>>,
    upto: int,
    before: ServerCtlModel,
    after: ServerCtlModel,
) -> bool
    decreases upto,
{
    if upto <= 0 {
        after == before
    } else {
        exists|mid: ServerCtlModel|
            {
                &&& all_initialized(members, upto - 1, before, mid)
                &&& #[trigger] members[upto - 1].dyn_initialized_effect(mid, after)
            }
    }
}

/// One more member that declines extends a run of members that declined.
proof fn lemma_one_more_declined_rpc<R, N>(
    members: Seq<BoxServer<R, N>>,
    upto: int,
    method: Seq<char>,
    params: Option<JsonModel>,
    before: ServerCtlModel,
    mid: ServerCtlModel,
    after: ServerCtlModel,
)
    requires
        0 <= upto < members.len(),
        all_declined_rpc(members, upto, method, params, before, mid),
        members[upto].dyn_rpc_reply(method, params, mid, after, None),
    ensures
        all_declined_rpc(members, upto + 1, method, params, before, after),
{
    assert(members[(upto + 1) - 1].dyn_rpc_reply(method, params, mid, after, None));
}

/// The same for a notification.
proof fn lemma_one_more_declined_notification<R, N>(
    members: Seq<BoxServer<R, N>>,
    upto: int,
    method: Seq<char>,
    params: Option<JsonModel>,
    before: ServerCtlModel,
    mid: ServerCtlModel,
    after: ServerCtlModel,
)
    requires
        0 <= upto < members.len(),
        all_declined_notification(members, upto, method, params, before, mid),
        members[upto].dyn_notification_reply(method, params, mid, after, None),
    ensures
        all_declined_notification(members, upto + 1, method, params, before, after),
{
    assert(members[(upto + 1) - 1].dyn_notification_reply(method, params, mid, after, None));
}

/// One more member that was told extends a run of members that were told.
proof fn lemma_one_more_initialized<R, N>(
    members: Seq<BoxServer<R, N>>,
    upto: int,
    before: ServerCtlModel,
    mid: ServerCtlModel,
    after: ServerCtlModel,
)
    requires
        0 <= upto < members.len(),
        all_initialized(members, upto, before, mid),
        members[upto].dyn_initialized_effect(mid, after),
    ensures
        all_initialized(members, upto + 1, before, after),
{
    assert(members[(upto + 1) - 1].dyn_initialized_effect(mid, after));
}

impl<R, N> ServerChain<R, N> {
    /// The members, in the order in which they are asked.
    pub closed spec fn members(self) -> Seq<BoxServer<R, N>> {
        self.members@
    }

    /// A chain of the given servers, asked in this order.
    pub fn new(subservers: Vec<BoxServer<R, N>>) -> (chain: Self)
        ensures
            chain.members() == subservers@,
    {
        ServerChain { members: subservers }
    }

    /// Takes the chain apart and gives the servers back.
    pub fn into_inner(self) -> (subservers: Vec<BoxServer<R, N>>)
        ensures
            subservers@ == self.members(),
    {
        self.members
    }
}

impl<R, N> Server for ServerChain<R, N> {
    type Success = Json;

    type RpcCallResult = R;

    type NotificationResult = N;

    open spec fn rpc_reply(
        &self,
        method: Seq<char>,
        params: Option<JsonModel>,
        before: ServerCtlModel,
        after: ServerCtlModel,
        reply: Option<R>,
    ) -> bool {
        chain_rpc_reply(self.members(), method, params, before, after, reply)
    }

    open spec fn notification_reply(
        &self,
        method: Seq<char>,
        params: Option<JsonModel>,
        before: ServerCtlModel,
        after: ServerCtlModel,
        reply: Option<N>,
    ) -> bool {
        chain_notification_reply(self.members(), method, params, before, after, reply)
    }

    open spec fn initialized_effect(&self, before: ServerCtlModel, after: ServerCtlModel) -> bool {
        all_initialized(self.members(), self.members().len() as int, before, after)
    }

    fn rpc(&self, ctl: &mut ServerCtl, method: &str, params: &Option<Json>) -> (reply: Option<R>) {
        let ghost start = ctl@;
        let ghost asked = optional_model(*params);
        let mut i: usize = 0;
        while i < self.members.len()
            invariant
                i <= self.members.len(),
                asked == optional_model(*params),
                start == old(ctl)@,
                all_declined_rpc(self.members(), i as int, method@, asked, start, ctl@),
            decreases self.members.len() - i,
        {
            let ghost mid = ctl@;
            let reply = self.members[i].dyn_rpc(ctl, method, params);
            if reply.is_some() {
                assert(all_declined_rpc(self.members(), i as int, method@, asked, start, mid));
                assert(reply == Some(reply->Some_0));
                assert(self.members()[i as int].dyn_rpc_reply(
                    method@,
                    asked,
                    mid,
                    ctl@,
                    Some(reply->Some_0),
                ));
                return reply;
            }
            proof {
                lemma_one_more_declined_rpc(self.members(), i as int, method@, asked, start, mid, ctl@);
            }
            i += 1;
        }
        None
    }

    fn notification(&self, ctl: &mut ServerCtl, method: &str, params: &Option<Json>) -> (reply: Option<
        N,
    >) {
        let ghost start = ctl@;
        let ghost asked = optional_model(*params);
        let mut i: usize = 0;
        while i < self.members.len()
            invariant
                i <= self.members.len(),
                asked == optional_model(*params),
                start == old(ctl)@,
                all_declined_notification(self.members(), i as int, method@, asked, start, ctl@),
            decreases self.members.len() - i,
        {
            let ghost mid = ctl@;
            let reply = self.members[i].dyn_notification(ctl, method, params);
            if reply.is_some() {
                assert(all_declined_notification(self.members(), i as int, method@, asked, start, mid));
                assert(reply == Some(reply->Some_0));
                assert(self.members()[i as int].dyn_notification_reply(
                    method@,
                    asked,
                    mid,
                    ctl@,
                    Some(reply->Some_0),
                ));
                return reply;
            }
            proof {
                lemma_one_more_declined_notification(self.members(), i as int, method@, asked, start, mid, ctl@);
            }
            i += 1;
        }
        None
    }

    fn initialized(&self, ctl: &mut ServerCtl) {
        let ghost start = ctl@;
        let mut i: usize = 0;
        while i < self.members.len()
            invariant
                i <= self.members.len(),
                start == old(ctl)@,
                all_initialized(self.members(), i as int, start, ctl@),
            decreases self.members.len() - i,
        {
            let ghost mid = ctl@;
            self.members[i].dyn_initialized(ctl);
            proof {
                lemma_one_more_initialized(self.members(), i as int, start, mid, ctl@);
            }
            i += 1;
        }
    }
}

/// Whether the member at `at` does not know a call: it answers nothing and asks
/// nothing of the connection, whatever the state of the handle.
pub open spec fn declines_rpc<R, N>(
    members: Seq<BoxServer<R, N>>,
    at: int,
    method: Seq<char>,
    params: Option<JsonModel>,
) -> bool {
    forall|before: ServerCtlModel, after: ServerCtlModel, reply: Option<R>|
        #[trigger] members[at].dyn_rpc_reply(method, params, before, after, reply) <==> (reply is None
            && after == before)
}

/// Whether the member at `at` knows a call: it never answers nothing.
pub open spec fn takes_rpc<R, N>(
    members: Seq<BoxServer<R, N>>,
    at: int,
    method: Seq<char>,
    params: Option<JsonModel>,
) -> bool {
    forall|before: ServerCtlModel, after: ServerCtlModel, reply: Option<R>|
        #[trigger] members[at].dyn_rpc_reply(method, params, before, after, reply) ==> reply is Some
}

/// Members that do not know a call leave the handle as it was.
proof fn lemma_strangers_change_nothing<R, N>(
    members: Seq<BoxServer<R, N>>,
    upto: int,
    method: Seq<char>,
    params: Option<JsonModel>,
    before: ServerCtlModel,
    after: ServerCtlModel,
)
    requires
        0 <= upto <= members.len(),
        forall|j: int| 0 <= j < upto ==> #[trigger] declines_rpc(members, j, method, params),
    ensures
        all_declined_rpc(members, upto, method, params, before, after) <==> after == before,
    decreases upto,
{
    if upto > 0 {
        assert(declines_rpc(members, upto - 1, method, params));
        if all_declined_rpc(members, upto, method, params, before, after) {
            let mid = choose|mid: ServerCtlModel|
                {
                    &&& all_declined_rpc(members, upto - 1, method, params, before, mid)
                    &&& #[trigger] members[upto - 1].dyn_rpc_reply(method, params, mid, after, None)
                };
            lemma_strangers_change_nothing(members, upto - 1, method, params, before, mid);
        }
        if after == before {
            lemma_strangers_change_nothing(members, upto - 1, method, params, before, before);
            assert(members[upto - 1].dyn_rpc_reply(method, params, before, after, None));
        }
    }
}

/// A run of members that all declined does not reach past one that takes
/// the call.
proof fn lemma_no_decline_past_a_taker<R, N>(
    members: Seq<BoxServer<R, N>>,
    k: int,
    upto: int,
    method: Seq<char>,
    params: Option<JsonModel>,
    before: ServerCtlModel,
    after: ServerCtlModel,
)
    requires
        0 <= k < upto <= members.len(),
        takes_rpc(members, k, method, params),
    ensures
        !all_declined_rpc(members, upto, method, params, before, after),
    decreases upto,
{
    if all_declined_rpc(members, upto, method, params, before, after) {
        let mid = choose|mid: ServerCtlModel|
            {
                &&& all_declined_rpc(members, upto - 1, method, params, before, mid)
                &&& #[trigger] members[upto - 1].dyn_rpc_reply(method, params, mid, after, None)
            };
        if upto - 1 > k {
            lemma_no_decline_past_a_taker(members, k, upto - 1, method, params, before, mid);
        }
    }
}

/// A call goes to the first member of a chain that knows it, and the chain
/// answers what that member answers: members before it that do not know the
/// call change nothing, and members after it are not asked.
pub proof fn law_first_taker_answers<R, N>(
    members: Seq<BoxServer<R, N>>,
    k: int,
    method: Seq<char>,
    params: Option<JsonModel>,
    before: ServerCtlModel,
    after: ServerCtlModel,
    reply: Option<R>,
)
    requires
        0 <= k < members.len(),
        forall|j: int| 0 <= j < k ==> #[trigger] declines_rpc(members, j, method, params),
        takes_rpc(members, k, method, params),
    ensures
        chain_rpc_reply(members, method, params, before, after, reply) <==> members[k].dyn_rpc_reply(
            method,
            params,
            before,
            after,
            reply,
        ),
{
    if chain_rpc_reply(members, method, params, before, after, reply) {
        match reply {
            None => {
                lemma_no_decline_past_a_taker(
                    members,
                    k,
                    members.len() as int,
                    method,
                    params,
                    before,
                    after,
                );
            },
            Some(answer) => {
                let (at, mid) = choose|at: int, mid: ServerCtlModel|
                    {
                        &&& 0 <= at < members.len()
                        &&& all_declined_rpc(members, at, method, params, before, mid)
                        &&& #[trigger] members[at].dyn_rpc_reply(method, params, mid, after, Some(answer))
                    };
                if at < k {
                    assert(declines_rpc(members, at, method, params));
                } else if at > k {
                    lemma_no_decline_past_a_taker(members, k, at, method, params, before, mid);
                } else {
                    lemma_strangers_change_nothing(members, k, method, params, before, mid);
                }
            },
        }
    }
    if members[k].dyn_rpc_reply(method, params, before, after, reply) {
        lemma_strangers_change_nothing(members, k, method, params, before, before);
        assert(reply is Some);
        assert(members[k].dyn_rpc_reply(method, params, before, after, Some(reply->Some_0)));
    }
}

/// A call that no member of a chain knows is declined by the chain, and
/// nothing is asked of the connection.
pub proof fn law_unknown_call_is_declined<R, N>(
    members: Seq<BoxServer<R, N>>,
    method: Seq<char>,
    params: Option<JsonModel>,
    before: ServerCtlModel,
    after: ServerCtlModel,
    reply: Option<R>,
)
    requires
        forall|j: int| 0 <= j < members.len() ==> #[trigger] declines_rpc(members, j, method, params),
    ensures
        chain_rpc_reply(members, method, params, before, after, reply) <==> (reply is None && after
            == before),
{
    lemma_strangers_change_nothing(members, members.len() as int, method, params, before, after);
    if let Some(answer) = reply {
        if chain_rpc_reply(members, method, params, before, after, reply) {
            let (at, mid) = choose|at: int, mid: ServerCtlModel|
                {
                    &&& 0 <= at < members.len()
                    &&& all_declined_rpc(members, at, method, params, before, mid)
                    &&& #[trigger] members[at].dyn_rpc_reply(method, params, mid, after, Some(answer))
                };
            assert(declines_rpc(members, at, method, params));
        }
    }
}

/// Whether the member at `at` does not know a notification: it takes nothing
/// and asks nothing of the connection, whatever the state of the handle.
pub open spec fn declines_notification<R, N>(
    members: Seq<BoxServer<R, N>>,
    at: int,
    method: Seq<char>,
    params: Option<JsonModel>,
) -> bool {
    forall|before: ServerCtlModel, after: ServerCtlModel, reply: Option<N>|
        #[trigger] members[at].dyn_notification_reply(method, params, before, after, reply) <==> (reply is None
            && after == before)
}

/// Whether the member at `at` knows a notification: it never declines it.
pub open spec fn takes_notification<R, N>(
    members: Seq<BoxServer<R, N>>,
    at: int,
    method: Seq<char>,
    params: Option<JsonModel>,
) -> bool {
    forall|before: ServerCtlModel, after: ServerCtlModel, reply: Option<N>|
        #[trigger] members[at].dyn_notification_reply(method, params, before, after, reply) ==> reply is Some
}

/// Members that do not know a notification leave the handle as it was.
proof fn lemma_strangers_hear_nothing<R, N>(
    members: Seq<BoxServer<R, N>>,
    upto: int,
    method: Seq<char>,
    params: Option<JsonModel>,
    before: ServerCtlModel,
    after: ServerCtlModel,
)
    requires
        0 <= upto <= members.len(),
        forall|j: int| 0 <= j < upto ==> #[trigger] declines_notification(members, j, method, params),
    ensures
        all_declined_notification(members, upto, method, params, before, after) <==> after == before,
    decreases upto,
{
    if upto > 0 {
        assert(declines_notification(members, upto - 1, method, params));
        if all_declined_notification(members, upto, method, params, before, after) {
            let mid = choose|mid: ServerCtlModel|
                {
                    &&& all_declined_notification(members, upto - 1, method, params, before, mid)
                    &&& #[trigger] members[upto - 1].dyn_notification_reply(method, params, mid, after, None)
                };
            lemma_strangers_hear_nothing(members, upto - 1, method, params, before, mid);
        }
        if after == before {
            lemma_strangers_hear_nothing(members, upto - 1, method, params, before, before);
            assert(members[upto - 1].dyn_notification_reply(method, params, before, after, None));
        }
    }
}

/// A run of members that all declined does not reach past one that takes
/// the notification.
proof fn lemma_no_silence_past_a_taker<R, N>(
    members: Seq<BoxServer<R, N>>,
    k: int,
    upto: int,
    method: Seq<char>,
    params: Option<JsonModel>,
    before: ServerCtlModel,
    after: ServerCtlModel,
)
    requires
        0 <= k < upto <= members.len(),
        takes_notification(members, k, method, params),
    ensures
        !all_declined_notification(members, upto, method, params, before, after),
    decreases upto,
{
    if all_declined_notification(members, upto, method, params, before, after) {
        let mid = choose|mid: ServerCtlModel|
            {
                &&& all_declined_notification(members, upto - 1, method, params, before, mid)
                &&& #[trigger] members[upto - 1].dyn_notification_reply(method, params, mid, after, None)
            };
        if upto - 1 > k {
            lemma_no_silence_past_a_taker(members, k, upto - 1, method, params, before, mid);
        }
    }
}

/// A notification goes to the first member of a chain that knows it, and
/// the chain hands back what that member hands back: members before it that
/// do not know the notification change nothing, and members after it are
/// not asked.
pub proof fn law_first_taker_is_notified<R, N>(
    members: Seq<BoxServer<R, N>>,
    k: int,
    method: Seq<char>,
    params: Option<JsonModel>,
    before: ServerCtlModel,
    after: ServerCtlModel,
    reply: Option<N>,
)
    requires
        0 <= k < members.len(),
        forall|j: int| 0 <= j < k ==> #[trigger] declines_notification(members, j, method, params),
        takes_notification(members, k, method, params),
    ensures
        chain_notification_reply(members, method, params, before, after, reply) <==> members[k].dyn_notification_reply(
            method,
            params,
            before,
            after,
            reply,
        ),
{
    if chain_notification_reply(members, method, params, before, after, reply) {
        match reply {
            None => {
                lemma_no_silence_past_a_taker(
                    members,
                    k,
                    members.len() as int,
                    method,
                    params,
                    before,
                    after,
                );
            },
            Some(answer) => {
                let (at, mid) = choose|at: int, mid: ServerCtlModel|
                    {
                        &&& 0 <= at < members.len()
                        &&& all_declined_notification(members, at, method, params, before, mid)
                        &&& #[trigger] members[at].dyn_notification_reply(method, params, mid, after, Some(answer))
                    };
                if at < k {
                    assert(declines_notification(members, at, method, params));
                } else if at > k {
                    lemma_no_silence_past_a_taker(members, k, at, method, params, before, mid);
                } else {
                    lemma_strangers_hear_nothing(members, k, method, params, before, mid);
                }
            },
        }
    }
    if members[k].dyn_notification_reply(method, params, before, after, reply) {
        lemma_strangers_hear_nothing(members, k, method, params, before, before);
        assert(reply is Some);
        assert(members[k].dyn_notification_reply(method, params, before, after, Some(reply->Some_0)));
    }
}

/// A notification that no member of a chain knows is declined by the
/// chain, and nothing is asked of the connection.
pub proof fn law_unknown_notification_is_dropped<R, N>(
    members: Seq<BoxServer<R, N>>,
    method: Seq<char>,
    params: Option<JsonModel>,
    before: ServerCtlModel,
    after: ServerCtlModel,
    reply: Option<N>,
)
    requires
        forall|j: int| 0 <= j < members.len() ==> #[trigger] declines_notification(members, j, method, params),
    ensures
        chain_notification_reply(members, method, params, before, after, reply) <==> (reply is None && after
            == before),
{
    lemma_strangers_hear_nothing(members, members.len() as int, method, params, before, after);
    if let Some(answer) = reply {
        if chain_notification_reply(members, method, params, before, after, reply) {
            let (at, mid) = choose|at: int, mid: ServerCtlModel|
                {
                    &&& 0 <= at < members.len()
                    &&& all_declined_notification(members, at, method, params, before, mid)
                    &&& #[trigger] members[at].dyn_notification_reply(method, params, mid, after, Some(answer))
                };
            assert(declines_notification(members, at, method, params));
        }
    }
}

} // verus!
