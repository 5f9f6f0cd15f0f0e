use jsonrpc_server::error::RpcError;
use jsonrpc_server::json::{Json, Number};
use jsonrpc_server::message::{
    DecodeError, Id, Message, Notification, Request, Response, Single,
};

fn text(s: &str) -> Json {
    Json::Str(s.to_owned())
}

fn num(n: u64) -> Json {
    Json::Number(Number::Pos(n))
}

fn object(members: Vec<(&str, Json)>) -> Json {
    Json::Object(members.into_iter().map(|(k, v)| (k.to_owned(), v)).collect())
}

fn request(method: &str, params: Option<Json>, id: Id) -> Single {
    Single::Request(Request { method: method.to_owned(), params, id })
}

fn notification(method: &str, params: Option<Json>) -> Single {
    Single::Notification(Notification { method: method.to_owned(), params })
}

fn samples() -> Vec<Message> {
    vec![
        Message::Single(request("ping", None, Id::Number(Number::Pos(1)))),
        Message::Single(request(
            "sum",
            Some(Json::Array(vec![num(1), num(2)])),
            Id::Text("abc".to_owned()),
        )),
        Message::Single(request("neg", Some(Json::Null), Id::Number(Number::Neg(-7)))),
        Message::Single(request("real", None, Id::Number(Number::Real("1.5".to_owned())))),
        Message::Single(notification("hello", None)),
        Message::Single(notification("hello", Some(object(vec![("a", Json::Bool(true))])))),
        Message::Single(Single::Response(Response {
            result: Ok(text("fine")),
            id: Some(Id::Number(Number::Pos(3))),
        })),
        Message::Single(Single::Response(Response { result: Ok(Json::Null), id: None })),
        Message::Single(Single::Response(Response {
            result: Err(RpcError::method_not_found("nope".to_owned())),
            id: Some(Id::Text("x".to_owned())),
        })),
        Message::Single(Single::Response(Response {
            result: Err(RpcError::new(7, "mine".to_owned(), None)),
            id: None,
        })),
        Message::Single(Single::Response(Response {
            result: Err(RpcError::new(i64::MIN, "low".to_owned(), Some(num(1)))),
            id: None,
        })),
        Message::Single(Single::Response(Response {
            result: Err(RpcError::new(i64::MAX, "high".to_owned(), Some(Json::Null))),
            id: None,
        })),
        Message::Batch(vec![
            request("a", None, Id::Number(Number::Pos(1))),
            notification("b", None),
            Single::Response(Response { result: Ok(num(5)), id: Some(Id::Number(Number::Pos(9))) }),
        ]),
    ]
}

#[test]
fn messages_come_back_as_they_went() {
    for message in samples() {
        let json = message.encode();
        assert_eq!(Message::decode(&json, true), Ok(samples_equal(&message)), "{:?}", json);
        assert_eq!(Message::decode(&json, false).unwrap(), message);
    }
}

fn samples_equal(message: &Message) -> Message {
    samples().into_iter().find(|m| m == message).unwrap()
}

#[test]
fn a_request_is_written_member_by_member() {
    let message = Message::Single(request("sum", Some(num(4)), Id::Number(Number::Pos(2))));
    assert_eq!(
        message.encode(),
        object(vec![
            ("jsonrpc", text("2.0")),
            ("method", text("sum")),
            ("params", num(4)),
            ("id", num(2)),
        ])
    );
    let message = Message::Single(Single::Response(Response {
        result: Err(RpcError::invalid_params(Some("bad".to_owned()))),
        id: None,
    }));
    assert_eq!(
        message.encode(),
        object(vec![
            ("jsonrpc", text("2.0")),
            (
                "error",
                object(vec![
                    ("code", Json::Number(Number::Neg(-32602))),
                    ("message", text("Invalid params")),
                    ("data", text("bad")),
                ])
            ),
            ("id", Json::Null),
        ])
    );
    let batch = Message::Batch(vec![notification("n", None)]);
    assert_eq!(
        batch.encode(),
        Json::Array(vec![object(vec![("jsonrpc", text("2.0")), ("method", text("n"))])])
    );
}

#[test]
fn what_is_no_message_is_an_error_of_the_envelope() {
    let broken = vec![
        Json::Null,
        Json::Bool(true),
        num(1),
        text("x"),
        Json::Array(vec![]),
        Json::Array(vec![num(1)]),
        Json::Array(vec![Json::Array(vec![object(vec![("method", text("m"))])])]),
        object(vec![]),
        object(vec![("jsonrpc", text("1.0")), ("method", text("m"))]),
        object(vec![("jsonrpc", num(2)), ("method", text("m"))]),
        object(vec![("method", num(1))]),
        object(vec![("method", text("m")), ("id", Json::Null)]),
        object(vec![("method", text("m")), ("id", Json::Array(vec![]))]),
        object(vec![("method", text("m")), ("id", object(vec![]))]),
        object(vec![("method", text("m")), ("id", Json::Bool(false))]),
        object(vec![("method", text("m")), ("result", num(1)), ("id", num(1))]),
        object(vec![("result", num(1))]),
        object(vec![("result", num(1)), ("error", Json::Null), ("id", num(1))]),
        object(vec![("id", num(1))]),
        object(vec![("error", num(1)), ("id", num(1))]),
        object(vec![("error", object(vec![("code", num(1))])), ("id", num(1))]),
        object(vec![("error", object(vec![("code", text("1")), ("message", text("m"))])), ("id", num(1))]),
        object(vec![
            ("error", object(vec![("code", num(u64::MAX)), ("message", text("m"))])),
            ("id", num(1)),
        ]),
        object(vec![
            (
                "error",
                object(vec![
                    ("code", Json::Number(Number::Real("1.5".to_owned()))),
                    ("message", text("m")),
                ]),
            ),
            ("id", num(1)),
        ]),
    ];
    for json in broken {
        assert_eq!(Message::decode(&json, false), Err(DecodeError::Envelope), "{:?}", json);
    }
}

#[test]
fn the_version_is_asked_for_only_where_it_is_strict() {
    let bare = object(vec![("method", text("m")), ("id", num(1))]);
    assert_eq!(Message::decode(&bare, true), Err(DecodeError::Envelope));
    assert_eq!(
        Message::decode(&bare, false),
        Ok(Message::Single(request("m", None, Id::Number(Number::Pos(1)))))
    );
    let batch = Json::Array(vec![
        object(vec![("jsonrpc", text("2.0")), ("method", text("m"))]),
        object(vec![("method", text("m"))]),
    ]);
    assert_eq!(Message::decode(&batch, true), Err(DecodeError::Envelope));
    assert_eq!(
        Message::decode(&batch, false),
        Ok(Message::Batch(vec![notification("m", None), notification("m", None)]))
    );
}

#[test]
fn members_of_other_names_are_ignored_and_the_last_of_a_name_counts() {
    let json = object(vec![
        ("jsonrpc", text("2.0")),
        ("method", text("first")),
        ("extra", num(1)),
        ("method", text("second")),
        ("params", Json::Null),
    ]);
    assert_eq!(
        Message::decode(&json, true),
        Ok(Message::Single(notification("second", Some(Json::Null))))
    );
    assert_eq!(Single::decode(&json, true), Some(notification("second", Some(Json::Null))));
    assert_eq!(Single::decode(&Json::Array(vec![json]), true), None);
}

#[test]
fn the_standard_errors_have_their_codes() {
    assert_eq!(RpcError::parse_error("x".to_owned()).code, -32700);
    assert_eq!(RpcError::invalid_request().code, -32600);
    assert_eq!(RpcError::method_not_found("m".to_owned()).code, -32601);
    assert_eq!(RpcError::invalid_params(None).code, -32602);
    assert_eq!(RpcError::internal_error("x".to_owned()).code, -32603);
    assert_eq!(
        RpcError::method_not_found("m".to_owned()),
        RpcError::new(-32601, "Method not found".to_owned(), Some(text("m")))
    );
    assert_eq!(
        RpcError::parse_error("why".to_owned()),
        RpcError::new(-32700, "Parse error".to_owned(), Some(text("why")))
    );
    assert_eq!(
        RpcError::invalid_request(),
        RpcError::new(-32600, "Invalid request".to_owned(), None)
    );
    assert_eq!(RpcError::invalid_params(None).data, None);
    assert_eq!(
        RpcError::internal_error("why".to_owned()),
        RpcError::new(-32603, "Internal error".to_owned(), Some(text("why")))
    );
    let e = RpcError::invalid_params(Some("d".to_owned()));
    assert_eq!(e.clone(), e);
}

#[test]
fn the_protocol_keeps_a_range_of_codes_for_itself() {
    for code in [-32768, -32700, -32603, -32600, -32000] {
        assert!(RpcError::is_reserved(code), "{}", code);
    }
    for code in [i64::MIN, -32769, -31999, -1, 0, 1, i64::MAX] {
        assert!(!RpcError::is_reserved(code), "{}", code);
    }
}
