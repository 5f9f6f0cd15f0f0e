use jsonrpc_server::codec::{Frame, LineCodec};
use jsonrpc_server::endpoint::{Action, Endpoint, Phase};
use jsonrpc_server::error::RpcError;
use jsonrpc_server::json::{Json, Number};
use jsonrpc_server::message::{
    DecodeError, Id, Message, Notification, Request, Response, Single,
};
use jsonrpc_server::server::{Empty, Server, ServerCtl};

/// A server whose calls resolve when the test says so.
struct Slow;

impl Server for Slow {
    type Success = Json;
    type RpcCallResult = String;
    type NotificationResult = String;

    fn rpc(&self, ctl: &mut ServerCtl, method: &str, _params: &Option<Json>) -> Option<String> {
        match method {
            "work" => Some("work".to_owned()),
            "quit" => {
                ctl.terminate();
                Some("quit".to_owned())
            }
            "shout" => {
                ctl.notify("heard".to_owned(), Some(Json::Bool(true)));
                ctl.notify("again".to_owned(), None);
                Some("shout".to_owned())
            }
            _ => None,
        }
    }

    fn notification(
        &self,
        ctl: &mut ServerCtl,
        method: &str,
        _params: &Option<Json>,
    ) -> Option<String> {
        match method {
            "note" => Some("note".to_owned()),
            "bye" => {
                ctl.terminate();
                Some("bye".to_owned())
            }
            _ => None,
        }
    }

    fn initialized(&self, ctl: &mut ServerCtl) {
        ctl.notify("ready".to_owned(), None);
    }
}

fn id(n: u64) -> Id {
    Id::Number(Number::Pos(n))
}

fn request(method: &str, n: u64) -> Single {
    Single::Request(Request { method: method.to_owned(), params: None, id: id(n) })
}

fn note(method: &str) -> Single {
    Single::Notification(Notification { method: method.to_owned(), params: None })
}

fn reply(n: u64, result: Result<Json, RpcError>) -> Single {
    Single::Response(Response { result, id: Some(id(n)) })
}

fn frame(single: Single) -> Frame {
    Frame::Message(Message::Single(single))
}

/// The actions in a form that can be compared.
fn seen(actions: Vec<Action<String, String>>) -> Vec<String> {
    actions
        .into_iter()
        .map(|action| match action {
            Action::Send(message) => {
                let line = LineCodec::encode(&message);
                format!("send {}", String::from_utf8(line).unwrap().trim_end())
            }
            Action::Call { token, result } => format!("call {} {}", token, result),
            Action::Notify(result) => format!("notify {}", result),
            Action::Close => "close".to_owned(),
        })
        .collect()
}

fn sent(message: Message) -> String {
    format!("send {}", String::from_utf8(LineCodec::encode(&message)).unwrap().trim_end())
}

fn started() -> Endpoint<Slow> {
    let (endpoint, actions) = Endpoint::new(Slow);
    assert_eq!(
        seen(actions),
        vec![sent(Message::Single(note("ready")))]
    );
    assert_eq!(endpoint.phase(), Phase::Active);
    endpoint
}

#[test]
fn replies_leave_in_the_order_in_which_calls_resolve() {
    let mut endpoint = started();
    assert_eq!(seen(endpoint.handle_frame(frame(request("work", 1)))), vec!["call 0 work"]);
    assert_eq!(seen(endpoint.handle_frame(frame(request("work", 2)))), vec!["call 1 work"]);
    assert_eq!(endpoint.calls_in_flight(), 2);
    assert_eq!(
        seen(endpoint.resolved(1, Ok(Json::Bool(true)))),
        vec![sent(Message::Single(reply(2, Ok(Json::Bool(true)))))]
    );
    assert_eq!(
        seen(endpoint.resolved(0, Err(RpcError::invalid_params(None)))),
        vec![sent(Message::Single(reply(1, Err(RpcError::invalid_params(None)))))]
    );
    assert_eq!(endpoint.calls_in_flight(), 0);
    assert_eq!(endpoint.phase(), Phase::Active);
    // a token that is not in flight changes nothing
    assert!(endpoint.resolved(0, Ok(Json::Null)).is_empty());
    assert!(endpoint.resolved(77, Ok(Json::Null)).is_empty());
}

#[test]
fn a_pending_call_is_answered_before_the_connection_closes() {
    let mut endpoint = started();
    assert_eq!(seen(endpoint.handle_frame(frame(request("work", 1)))), vec!["call 0 work"]);
    assert!(endpoint.terminate().is_empty());
    assert_eq!(endpoint.phase(), Phase::Terminating);
    // frames are no longer taken
    assert!(endpoint.handle_frame(frame(request("work", 2))).is_empty());
    assert!(endpoint.handle_frame(Frame::Broken(DecodeError::Envelope)).is_empty());
    assert_eq!(endpoint.calls_in_flight(), 1);
    assert_eq!(
        seen(endpoint.resolved(0, Ok(Json::Null))),
        vec![sent(Message::Single(reply(1, Ok(Json::Null)))), "close".to_owned()]
    );
    assert_eq!(endpoint.phase(), Phase::Closed);
    assert!(endpoint.terminate().is_empty());
    assert!(endpoint.notify("late".to_owned(), None).is_empty());
    assert!(endpoint.handle_frame(frame(request("work", 3))).is_empty());
}

#[test]
fn a_server_can_end_the_connection_from_a_callback() {
    let mut endpoint = started();
    assert_eq!(seen(endpoint.handle_frame(frame(request("work", 1)))), vec!["call 0 work"]);
    assert_eq!(seen(endpoint.handle_frame(frame(request("quit", 2)))), vec!["call 1 quit"]);
    assert_eq!(endpoint.phase(), Phase::Terminating);
    assert_eq!(
        seen(endpoint.resolved(0, Ok(Json::Null))),
        vec![sent(Message::Single(reply(1, Ok(Json::Null))))]
    );
    assert_eq!(
        seen(endpoint.resolved(1, Ok(Json::Null))),
        vec![sent(Message::Single(reply(2, Ok(Json::Null)))), "close".to_owned()]
    );

    let mut endpoint = started();
    assert_eq!(
        seen(endpoint.handle_frame(frame(note("bye")))),
        vec!["notify bye".to_owned(), "close".to_owned()]
    );
    assert_eq!(endpoint.phase(), Phase::Closed);
}

#[test]
fn an_empty_server_closes_the_connection_at_once() {
    let (mut endpoint, actions) = Endpoint::new(Empty);
    assert!(matches!(actions.as_slice(), [Action::Close]));
    assert_eq!(endpoint.phase(), Phase::Closed);
    assert!(endpoint.handle_frame(frame(request("any", 1))).is_empty());
}

#[test]
fn a_method_that_nobody_knows_is_answered_and_a_notification_is_dropped() {
    let mut endpoint = started();
    assert_eq!(
        seen(endpoint.handle_frame(frame(request("nope", 5)))),
        vec![sent(Message::Single(reply(5, Err(RpcError::method_not_found("nope".to_owned())))))]
    );
    assert!(endpoint.handle_frame(frame(note("nope"))).is_empty());
    assert_eq!(seen(endpoint.handle_frame(frame(note("note")))), vec!["notify note"]);
    // a response is not for the server side
    assert!(endpoint.handle_frame(frame(reply(1, Ok(Json::Null)))).is_empty());
    assert!(endpoint.handle_frame(Frame::Skip).is_empty());
    assert_eq!(endpoint.calls_in_flight(), 0);
}

#[test]
fn a_frame_that_is_no_message_is_answered_under_no_id() {
    let mut endpoint = started();
    let parse_error = Message::Single(Single::Response(Response {
        result: Err(RpcError::parse_error("why".to_owned())),
        id: None,
    }));
    assert_eq!(
        seen(endpoint.handle_frame(Frame::Broken(DecodeError::Syntax("why".to_owned())))),
        vec![sent(parse_error)]
    );
    let invalid = Message::Single(Single::Response(Response {
        result: Err(RpcError::invalid_request()),
        id: None,
    }));
    assert_eq!(seen(endpoint.handle_frame(Frame::Broken(DecodeError::Envelope))), vec![sent(invalid)]);
    assert_eq!(endpoint.phase(), Phase::Active);
    assert_eq!(
        DecodeError::Envelope.reply(),
        Response { result: Err(RpcError::invalid_request()), id: None }
    );
    assert_eq!(DecodeError::Syntax("x".to_owned()).error(), RpcError::parse_error("x".to_owned()));
}

#[test]
fn what_the_server_says_through_its_handle_goes_out() {
    let mut endpoint = started();
    assert_eq!(
        seen(endpoint.handle_frame(frame(request("shout", 1)))),
        vec![
            "call 0 shout".to_owned(),
            sent(Message::Single(Single::Notification(Notification {
                method: "heard".to_owned(),
                params: Some(Json::Bool(true)),
            }))),
            sent(Message::Single(note("again"))),
        ]
    );
    assert_eq!(
        seen(endpoint.notify("later".to_owned(), Some(Json::Null))),
        vec![sent(Message::Single(Single::Notification(Notification {
            method: "later".to_owned(),
            params: Some(Json::Null),
        })))]
    );
}

#[test]
fn the_replies_of_a_batch_go_out_as_one_batch() {
    let mut endpoint = started();
    let batch = Frame::Message(Message::Batch(vec![
        request("work", 1),
        note("note"),
        request("nope", 2),
        request("work", 3),
        reply(9, Ok(Json::Null)),
        note("nope"),
    ]));
    assert_eq!(
        seen(endpoint.handle_frame(batch)),
        vec!["call 0 work", "notify note", "call 1 work"]
    );
    assert_eq!(endpoint.calls_in_flight(), 0);
    assert_eq!(endpoint.batches_in_flight(), 1);
    // a call of its own in between is answered on its own
    assert_eq!(seen(endpoint.handle_frame(frame(request("work", 4)))), vec!["call 2 work"]);
    assert!(endpoint.resolved(1, Ok(Json::Bool(false))).is_empty());
    assert_eq!(
        seen(endpoint.resolved(2, Ok(Json::Null))),
        vec![sent(Message::Single(reply(4, Ok(Json::Null))))]
    );
    assert_eq!(
        seen(endpoint.resolved(0, Ok(Json::Bool(true)))),
        vec![sent(Message::Batch(vec![
            reply(2, Err(RpcError::method_not_found("nope".to_owned()))),
            reply(3, Ok(Json::Bool(false))),
            reply(1, Ok(Json::Bool(true))),
        ]))]
    );
    assert_eq!(endpoint.batches_in_flight(), 0);
}

#[test]
fn a_batch_without_calls_in_flight_is_answered_at_once_or_not_at_all() {
    let mut endpoint = started();
    let batch = Frame::Message(Message::Batch(vec![request("nope", 1), request("nada", 2)]));
    assert_eq!(
        seen(endpoint.handle_frame(batch)),
        vec![sent(Message::Batch(vec![
            reply(1, Err(RpcError::method_not_found("nope".to_owned()))),
            reply(2, Err(RpcError::method_not_found("nada".to_owned()))),
        ]))]
    );
    let batch = Frame::Message(Message::Batch(vec![note("note"), note("nope")]));
    assert_eq!(seen(endpoint.handle_frame(batch)), vec!["notify note"]);
    assert_eq!(endpoint.batches_in_flight(), 0);
}

#[test]
fn a_batch_in_flight_holds_the_connection_open() {
    let mut endpoint = started();
    let batch = Frame::Message(Message::Batch(vec![request("work", 1), request("quit", 2)]));
    assert_eq!(seen(endpoint.handle_frame(batch)), vec!["call 0 work", "call 1 quit"]);
    assert_eq!(endpoint.phase(), Phase::Terminating);
    assert!(endpoint.resolved(1, Ok(Json::Null)).is_empty());
    assert_eq!(
        seen(endpoint.resolved(0, Ok(Json::Null))),
        vec![
            sent(Message::Batch(vec![reply(2, Ok(Json::Null)), reply(1, Ok(Json::Null))])),
            "close".to_owned(),
        ]
    );
    assert_eq!(endpoint.phase(), Phase::Closed);
}

#[test]
fn bytes_in_frames_out() {
    let mut codec = LineCodec::tolerant();
    let mut endpoint = started();
    codec.feed(b"{\"jsonrpc\":\"2.0\",\"method\":\"work\",\"id\":1}\n\nnot-json\n[]\n");
    let mut out = Vec::new();
    for frame in codec.decode().unwrap() {
        out.extend(seen(endpoint.handle_frame(frame)));
    }
    assert_eq!(out.len(), 3);
    assert_eq!(out[0], "call 0 work");
    // the members of an object are written in the order of their names
    assert!(out[1].starts_with("send {\"error\":{\"code\":-32700,\"data\":\""), "{}", out[1]);
    assert!(
        out[1].ends_with("\",\"message\":\"Parse error\"},\"id\":null,\"jsonrpc\":\"2.0\"}"),
        "{}",
        out[1]
    );
    assert_eq!(
        out[2],
        "send {\"error\":{\"code\":-32600,\"message\":\"Invalid request\"},\"id\":null,\"jsonrpc\":\"2.0\"}"
    );
}
