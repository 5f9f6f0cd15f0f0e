use std::cell::{Cell, RefCell};

use futures::{Future, IntoFuture};
use jsonrpc_server::error::RpcError;
use jsonrpc_server::json::{Json, Number};
use jsonrpc_server::server::{AbstractServer, BoxServer, Empty, Server, ServerChain, ServerCtl};
use jsonrpc_server::wire::wire;
use serde::Serialize;

type BoxRpcCallResult = Box<dyn Future<Item = Json, Error = RpcError>>;
type BoxNotificationResult = Box<dyn Future<Item = (), Error = ()>>;

fn erase_rpc<F>(result: F) -> BoxRpcCallResult
where
    F: IntoFuture<Error = RpcError> + 'static,
    F::Item: Serialize,
{
    Box::new(result.into_future().map(|value| {
        wire(value).expect("Your result type is not convertible to JSON, which is a bug")
    }))
}

fn erase_notification<F>(result: F) -> BoxNotificationResult
where
    F: IntoFuture<Item = (), Error = ()> + 'static,
{
    Box::new(result.into_future())
}

/// Check the empty server is somewhat sane.
#[test]
fn empty() {
    let server = Empty;
    let mut ctl = ServerCtl::new();
    // As we can't reasonably check all possible method names, do so for just a bunch
    for method in ["method", "notification", "check"].iter() {
        assert!(server.rpc(&mut ctl, method, &None).is_none());
        assert!(server.notification(&mut ctl, method, &None).is_none());
    }
    assert!(!ctl.is_terminated());
    // It terminates the ctl on the server side on initialization
    server.initialized(&mut ctl);
    assert!(ctl.is_terminated());
}

/// A server that logs what has been called.
#[derive(Default, Debug, PartialEq)]
struct LogServer {
    serial: Cell<usize>,
    rpc: RefCell<Vec<usize>>,
    notification: RefCell<Vec<usize>>,
    initialized: RefCell<Vec<usize>>,
}

impl LogServer {
    fn update(&self, what: &RefCell<Vec<usize>>) {
        let serial = self.serial.get() + 1;
        self.serial.set(serial);
        what.borrow_mut().push(serial);
    }
}

impl Server for LogServer {
    type Success = bool;
    type RpcCallResult = Result<bool, RpcError>;
    type NotificationResult = Result<(), ()>;
    fn rpc(
        &self,
        _ctl: &mut ServerCtl,
        method: &str,
        params: &Option<Json>,
    ) -> Option<Self::RpcCallResult> {
        self.update(&self.rpc);
        match method {
            "test" => {
                assert!(params.is_none());
                Some(Ok(true))
            }
            _ => None,
        }
    }
    fn notification(
        &self,
        _ctl: &mut ServerCtl,
        method: &str,
        params: &Option<Json>,
    ) -> Option<Self::NotificationResult> {
        self.update(&self.notification);
        assert!(params.is_none());
        match method {
            "notification" => Some(Ok(())),
            _ => None,
        }
    }
    fn initialized(&self, _ctl: &mut ServerCtl) {
        self.update(&self.initialized);
    }
}

/// Testing of the abstract server
///
/// Just checking the data gets through and calling everything, there's nothing much to test
/// anyway.
#[test]
fn abstract_server() {
    let log_server = LogServer::default();
    let abstract_server = AbstractServer::new(log_server, erase_rpc, erase_notification);
    let mut ctl = ServerCtl::new();
    let rpc_result = abstract_server.rpc(&mut ctl, "test", &None).unwrap().wait().unwrap();
    assert_eq!(Json::Bool(true), rpc_result);
    abstract_server.notification(&mut ctl, "notification", &None).unwrap().wait().unwrap();
    assert!(abstract_server.rpc(&mut ctl, "another", &None).is_none());
    assert!(abstract_server.notification(&mut ctl, "another", &None).is_none());
    abstract_server.initialized(&mut ctl);
    let log_server = abstract_server.into_inner();
    let expected = LogServer {
        serial: Cell::new(5),
        rpc: RefCell::new(vec![1, 3]),
        notification: RefCell::new(vec![2, 4]),
        initialized: RefCell::new(vec![5]),
    };
    assert_eq!(expected, log_server);
}

struct AnotherServer;

impl Server for AnotherServer {
    type Success = usize;
    type RpcCallResult = Result<usize, RpcError>;
    type NotificationResult = Result<(), ()>;
    fn rpc(
        &self,
        _ctl: &mut ServerCtl,
        method: &str,
        params: &Option<Json>,
    ) -> Option<Self::RpcCallResult> {
        assert!(matches!(params.as_ref().unwrap(), Json::Null));
        match method {
            "another" => Some(Ok(42)),
            _ => None,
        }
    }
    fn notification(
        &self,
        _ctl: &mut ServerCtl,
        _method: &str,
        _params: &Option<Json>,
    ) -> Option<Self::NotificationResult> {
        None
    }
    fn initialized(&self, _ctl: &mut ServerCtl) {}
}

fn boxed<S>(server: S) -> BoxServer<BoxRpcCallResult, BoxNotificationResult>
where
    S: Server + 'static,
    S::RpcCallResult: IntoFuture<Error = RpcError> + 'static,
    <S::RpcCallResult as IntoFuture>::Item: Serialize,
    S::NotificationResult: IntoFuture<Item = (), Error = ()> + 'static,
{
    Box::new(AbstractServer::new(
        server,
        erase_rpc::<S::RpcCallResult>,
        erase_notification::<S::NotificationResult>,
    ))
}

/// Test the chain.
///
/// By the asserts on params in the servers we check that only what should be called is.
#[test]
fn chain() {
    let empty_server = Empty;
    let log_server = LogServer::default();
    let another_server = AnotherServer;
    let mut ctl = ServerCtl::new();
    let chain =
        ServerChain::new(vec![boxed(empty_server), boxed(log_server), boxed(another_server)]);
    chain.initialized(&mut ctl);
    assert!(ctl.is_terminated());
    assert_eq!(Json::Bool(true), chain.rpc(&mut ctl, "test", &None).unwrap().wait().unwrap());
    assert_eq!(
        Json::Number(Number::Pos(42)),
        chain.rpc(&mut ctl, "another", &Some(Json::Null)).unwrap().wait().unwrap()
    );
    assert!(chain.rpc(&mut ctl, "wrong", &Some(Json::Null)).is_none());
    chain.notification(&mut ctl, "notification", &None).unwrap().wait().unwrap();
    assert!(chain.notification(&mut ctl, "another", &None).is_none());
}

/// What a server was asked, kept where the test can read it.
struct Record {
    asked: RefCell<Vec<String>>,
    told: Cell<usize>,
}

/// A server that knows one method and keeps a record of what it was asked.
struct Known {
    method: &'static str,
    answer: u64,
    record: std::rc::Rc<Record>,
}

impl Known {
    fn new(method: &'static str, answer: u64) -> (Self, std::rc::Rc<Record>) {
        let record =
            std::rc::Rc::new(Record { asked: RefCell::new(Vec::new()), told: Cell::new(0) });
        (Known { method, answer, record: record.clone() }, record)
    }
}

impl Server for Known {
    type Success = u64;
    type RpcCallResult = Result<u64, RpcError>;
    type NotificationResult = Result<(), ()>;
    fn rpc(
        &self,
        _ctl: &mut ServerCtl,
        method: &str,
        _params: &Option<Json>,
    ) -> Option<Self::RpcCallResult> {
        self.record.asked.borrow_mut().push(format!("rpc {}", method));
        if method == self.method {
            Some(Ok(self.answer))
        } else {
            None
        }
    }
    fn notification(
        &self,
        _ctl: &mut ServerCtl,
        method: &str,
        _params: &Option<Json>,
    ) -> Option<Self::NotificationResult> {
        self.record.asked.borrow_mut().push(format!("notification {}", method));
        if method == self.method {
            Some(Ok(()))
        } else {
            None
        }
    }
    fn initialized(&self, _ctl: &mut ServerCtl) {
        self.record.told.set(self.record.told.get() + 1);
    }
}

#[test]
fn chain_falls_through_to_the_first_server_that_knows_the_method() {
    let (first, a) = Known::new("x", 1);
    let (second, b) = Known::new("y", 2);
    let chain = ServerChain::new(vec![boxed(first), boxed(second)]);
    let mut ctl = ServerCtl::new();

    chain.initialized(&mut ctl);
    assert_eq!((a.told.get(), b.told.get()), (1, 1));
    assert!(!ctl.is_terminated());

    let answer = chain.rpc(&mut ctl, "y", &None).unwrap().wait().unwrap();
    assert_eq!(answer, Json::Number(Number::Pos(2)));
    assert_eq!(*a.asked.borrow(), vec!["rpc y"]);
    assert_eq!(*b.asked.borrow(), vec!["rpc y"]);

    let answer = chain.rpc(&mut ctl, "x", &None).unwrap().wait().unwrap();
    assert_eq!(answer, Json::Number(Number::Pos(1)));
    // the second server is not asked once the first has answered
    assert_eq!(*a.asked.borrow(), vec!["rpc y", "rpc x"]);
    assert_eq!(*b.asked.borrow(), vec!["rpc y"]);

    assert!(chain.rpc(&mut ctl, "z", &None).is_none());
    assert_eq!(*a.asked.borrow(), vec!["rpc y", "rpc x", "rpc z"]);
    assert_eq!(*b.asked.borrow(), vec!["rpc y", "rpc z"]);

    chain.notification(&mut ctl, "y", &None).unwrap().wait().unwrap();
    assert!(chain.notification(&mut ctl, "z", &None).is_none());
    assert_eq!(a.asked.borrow().len(), 5);
    assert_eq!(*b.asked.borrow(), vec!["rpc y", "rpc z", "notification y", "notification z"]);

    let members = chain.into_inner();
    assert_eq!(members.len(), 2);
}

#[test]
fn an_empty_chain_knows_nothing() {
    let chain: ServerChain<BoxRpcCallResult, BoxNotificationResult> = ServerChain::new(Vec::new());
    let mut ctl = ServerCtl::new();
    chain.initialized(&mut ctl);
    assert!(!ctl.is_terminated());
    assert!(chain.rpc(&mut ctl, "x", &None).is_none());
    assert!(chain.notification(&mut ctl, "x", &None).is_none());
}

#[test]
fn a_chain_can_stand_in_a_chain() {
    let inner = ServerChain::new(vec![boxed(AnotherServer)]);
    let outer: ServerChain<BoxRpcCallResult, BoxNotificationResult> =
        ServerChain::new(vec![boxed(Empty), Box::new(inner)]);
    let mut ctl = ServerCtl::new();
    assert_eq!(
        Json::Number(Number::Pos(42)),
        outer.rpc(&mut ctl, "another", &Some(Json::Null)).unwrap().wait().unwrap()
    );
    assert!(outer.rpc(&mut ctl, "wrong", &Some(Json::Null)).is_none());
}

#[test]
fn the_handle_records_what_a_server_asks_for() {
    let mut ctl = ServerCtl::new();
    assert!(!ctl.is_terminated());
    assert!(ctl.take_notifications().is_empty());
    ctl.notify("first".to_owned(), None);
    ctl.notify("second".to_owned(), Some(Json::Bool(true)));
    let notes = ctl.take_notifications();
    assert_eq!(notes.len(), 2);
    assert_eq!(notes[0].method, "first");
    assert_eq!(notes[0].params, None);
    assert_eq!(notes[1].method, "second");
    assert_eq!(notes[1].params, Some(Json::Bool(true)));
    assert!(ctl.take_notifications().is_empty());
    ctl.terminate();
    ctl.terminate();
    assert!(ctl.is_terminated());
}

#[test]
fn a_result_is_written_as_json_for_the_wire() {
    assert_eq!(wire(true), Ok(Json::Bool(true)));
    assert_eq!(wire(()), Ok(Json::Null));
    assert_eq!(wire(-3i32), Ok(Json::Number(Number::Neg(-3))));
    assert_eq!(wire(2.5f64), Ok(Json::Number(Number::Real("2.5".to_owned()))));
    assert_eq!(
        wire(vec![Some("a"), None]),
        Ok(Json::Array(vec![Json::Str("a".to_owned()), Json::Null]))
    );
    let mut map = std::collections::BTreeMap::new();
    map.insert("b", 1u8);
    map.insert("a", 2u8);
    assert_eq!(
        wire(map),
        Ok(Json::Object(vec![
            ("a".to_owned(), Json::Number(Number::Pos(2))),
            ("b".to_owned(), Json::Number(Number::Pos(1))),
        ]))
    );
}

#[test]
fn a_result_that_is_no_json_is_handed_back_with_the_reason() {
    // the keys of this map are no texts
    let mut map = std::collections::BTreeMap::new();
    map.insert(vec![32u8, 64], "x86");
    let why = wire(map).unwrap_err();
    assert!(!why.is_empty());
    assert_eq!(why, "key must be a string");
}
