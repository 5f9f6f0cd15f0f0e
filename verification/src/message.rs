use vstd::prelude::*;
use vstd::string::StringExecFns;
use crate::json::{
    Json, JsonModel, Number, NumberModel, optional_model, clone_optional, member, models,
    member_models, lookup, lemma_array_model, lemma_object_model,
};
use crate::error::{RpcError, RpcErrorModel, parse_error_model, invalid_request_model};

verus! {

/// What ties a response to its request: a number or a text.
#[derive(Debug, PartialEq)]
pub enum Id {
    Number(Number),
    Text(String),
}

/// The mathematical model of an id.
pub enum IdModel {
    Number(NumberModel),
    Text(Seq<char>),
}

impl View for Id {
    type V = IdModel;

    open spec fn view(&self) -> IdModel {
        match self {
            Id::Number(number) => IdModel::Number(number@),
            Id::Text(text) => IdModel::Text(text@),
        }
    }
}

impl Clone for Id {
    fn clone(&self) -> (id: Id)
        ensures
            id@ == self@,
    {
        match self {
            Id::Number(number) => Id::Number(number.clone()),
            Id::Text(text) => Id::Text(text.clone()),
        }
    }
}

/// The model of an id that may be `null`.
pub open spec fn optional_id_model(id: Option<Id>) -> Option<IdModel> {
    match id {
        Some(id) => Some(id@),
        None => None,
    }
}

/// A call that expects a reply under its id.
#[derive(Debug, PartialEq)]
pub struct Request {
    pub method: String,
    pub params: Option<Json>,
    pub id: Id,
}

/// The mathematical model of a request.
pub struct RequestModel {
    pub method: Seq<char>,
    pub params: Option<JsonModel>,
    pub id: IdModel,
}

impl View for Request {
    type V = RequestModel;

    open spec fn view(&self) -> RequestModel {
        RequestModel { method: self.method@, params: optional_model(self.params), id: self.id@ }
    }
}

/// A call that expects no reply.
#[derive(Debug, PartialEq)]
pub struct Notification {
    pub method: String,
    pub params: Option<Json>,
}

/// The mathematical model of a notification.
pub struct NotificationModel {
    pub method: Seq<char>,
    pub params: Option<JsonModel>,
}

impl View for Notification {
    type V = NotificationModel;

    open spec fn view(&self) -> NotificationModel {
        NotificationModel { method: self.method@, params: optional_model(self.params) }
    }
}

impl Clone for Notification {
    fn clone(&self) -> (note: Notification)
        ensures
            note@ == self@,
    {
        Notification { method: self.method.clone(), params: clone_optional(&self.params) }
    }
}

/// The reply to a request: its result or its error, under the id of the
/// request. The id is `None`, and travels as `null`, where the request could
/// not be read far enough to know it.
#[derive(Debug, PartialEq)]
pub struct Response {
    pub result: Result<Json, RpcError>,
    pub id: Option<Id>,
}

/// The mathematical model of a response.
pub struct ResponseModel {
    pub result: Result<JsonModel, RpcErrorModel>,
    pub id: Option<IdModel>,
}

/// The model of the result that a response carries.
pub open spec fn result_model(result: Result<Json, RpcError>) -> Result<JsonModel, RpcErrorModel> {
    match result {
        Ok(json) => Ok(json@),
        Err(error) => Err(error@),
    }
}

impl View for Response {
    type V = ResponseModel;

    open spec fn view(&self) -> ResponseModel {
        ResponseModel { result: result_model(self.result), id: optional_id_model(self.id) }
    }
}

/// One message that is no batch.
#[derive(Debug, PartialEq)]
pub enum Single {
    Request(Request),
    Notification(Notification),
    Response(Response),
}

/// The mathematical model of a message that is no batch.
pub enum SingleModel {
    Request(RequestModel),
    Notification(NotificationModel),
    Response(ResponseModel),
}

impl View for Single {
    type V = SingleModel;

    open spec fn view(&self) -> SingleModel {
        match self {
            Single::Request(request) => SingleModel::Request(request@),
            Single::Notification(note) => SingleModel::Notification(note@),
            Single::Response(response) => SingleModel::Response(response@),
        }
    }
}

/// What one frame carries: one message, or several sent as one unit.
#[derive(Debug, PartialEq)]
pub enum Message {
    Single(Single),
    Batch(Vec<Single>),
}

/// The mathematical model of a message.
pub enum MessageModel {
    Single(SingleModel),
    Batch(Seq<SingleModel>),
}

/// The models of the entries of a batch, in order.
pub open spec fn single_models(entries: Seq<Single>) -> Seq<SingleModel> {
    Seq::new(entries.len(), |i: int| entries[i]@)
}

impl View for Message {
    type V = MessageModel;

    open spec fn view(&self) -> MessageModel {
        match self {
            Message::Single(single) => MessageModel::Single(single@),
            Message::Batch(entries) => MessageModel::Batch(single_models(entries@)),
        }
    }
}

/// Why a frame gave no message.
#[derive(Debug, PartialEq)]
pub enum DecodeError {
    /// The frame is no JSON; the text says why.
    Syntax(String),
    /// The frame is JSON, but no request, notification, response or batch.
    Envelope,
}

/// The mathematical model of a decoding error.
pub enum DecodeErrorModel {
    Syntax(Seq<char>),
    Envelope,
}

impl View for DecodeError {
    type V = DecodeErrorModel;

    open spec fn view(&self) -> DecodeErrorModel {
        match self {
            DecodeError::Syntax(why) => DecodeErrorModel::Syntax(why@),
            DecodeError::Envelope => DecodeErrorModel::Envelope,
        }
    }
}

/// The error that answers a frame that gave no message: a parse error with
/// the reason, or an invalid request.
pub open spec fn refusal_model(error: DecodeErrorModel) -> RpcErrorModel {
    match error {
        DecodeErrorModel::Syntax(why) => parse_error_model(why),
        DecodeErrorModel::Envelope => invalid_request_model(),
    }
}

impl DecodeError {
    /// The error that answers the frame.
    pub fn error(&self) -> (error: RpcError)
        ensures
            error@ == refusal_model(self@),
    {
        match self {
            DecodeError::Syntax(why) => RpcError::parse_error(why.clone()),
            DecodeError::Envelope => RpcError::invalid_request(),
        }
    }

    /// The response that answers the frame. Its id is `null`: the frame did
    /// not give one.
    pub fn reply(&self) -> (reply: Response)
        ensures
            reply@ == (ResponseModel { result: Err(refusal_model(self@)), id: None }),
    {
        Response { result: Err(self.error()), id: None }
    }
}

/// The JSON number that stands for an error code.
pub open spec fn code_json(code: int) -> JsonModel {
    if code >= 0 {
        JsonModel::Number(NumberModel::Pos(code as u64))
    } else {
        JsonModel::Number(NumberModel::Neg(code as i64))
    }
}

/// The error code that a JSON value stands for, if it is an integer that an
/// error code can hold.
pub open spec fn json_code(json: JsonModel) -> Option<int> {
    match json {
        JsonModel::Number(NumberModel::Pos(n)) => if n <= i64::MAX {
            Some(n as int)
        } else {
            None
        },
        JsonModel::Number(NumberModel::Neg(n)) => Some(n as int),
        _ => None,
    }
}

/// The member that carries the parameters or the data, where there are any.
pub open spec fn optional_member(name: Seq<char>, value: Option<JsonModel>) -> Seq<(Seq<char>, JsonModel)> {
    match value {
        Some(json) => seq![(name, json)],
        None => Seq::empty(),
    }
}

/// The member that says which version of the protocol a message speaks.
pub open spec fn version_member() -> (Seq<char>, JsonModel) {
    ("jsonrpc"@, JsonModel::Str("2.0"@))
}

/// An id as JSON.
pub open spec fn id_json(id: IdModel) -> JsonModel {
    match id {
        IdModel::Number(number) => JsonModel::Number(number),
        IdModel::Text(text) => JsonModel::Str(text),
    }
}

/// The id of a response as JSON: `null` where there is none.
pub open spec fn optional_id_json(id: Option<IdModel>) -> JsonModel {
    match id {
        Some(id) => id_json(id),
        None => JsonModel::Null,
    }
}

/// An error as JSON: an object with `code` and `message`, and with `data`
/// where the error carries some.
pub open spec fn error_json(error: RpcErrorModel) -> JsonModel {
    JsonModel::Object(
        seq![("code"@, code_json(error.code)), ("message"@, JsonModel::Str(error.message))]
            + optional_member("data"@, error.data),
    )
}

/// The member that carries the outcome of a call: its result or its error.
pub open spec fn outcome_member(result: Result<JsonModel, RpcErrorModel>) -> (Seq<char>, JsonModel) {
    match result {
        Ok(result) => ("result"@, result),
        Err(error) => ("error"@, error_json(error)),
    }
}

/// A message that is no batch as JSON.
pub open spec fn single_json(single: SingleModel) -> JsonModel {
    match single {
        SingleModel::Request(request) => JsonModel::Object(
            seq![version_member(), ("method"@, JsonModel::Str(request.method))] + optional_member(
                "params"@,
                request.params,
            ) + seq![("id"@, id_json(request.id))],
        ),
        SingleModel::Notification(note) => JsonModel::Object(
            seq![version_member(), ("method"@, JsonModel::Str(note.method))] + optional_member(
                "params"@,
                note.params,
            ),
        ),
        SingleModel::Response(response) => JsonModel::Object(
            seq![
                version_member(),
                outcome_member(response.result),
                ("id"@, optional_id_json(response.id)),
            ],
        ),
    }
}

/// A message as JSON: an object for one message, an array of objects for a
/// batch.
pub open spec fn message_json(message: MessageModel) -> JsonModel {
    match message {
        MessageModel::Single(single) => single_json(single),
        MessageModel::Batch(entries) => JsonModel::Array(
            Seq::new(entries.len(), |i: int| single_json(entries[i])),
        ),
    }
}

/// The id that a JSON value stands for: a number or a text.
pub open spec fn json_id(json: JsonModel) -> Option<IdModel> {
    match json {
        JsonModel::Number(number) => Some(IdModel::Number(number)),
        JsonModel::Str(text) => Some(IdModel::Text(text)),
        _ => None,
    }
}

/// The id of a response that a JSON value stands for: `null` says that
/// there is none.
pub open spec fn json_optional_id(json: JsonModel) -> Option<Option<IdModel>> {
    match json {
        JsonModel::Null => Some(None),
        _ => match json_id(json) {
            Some(id) => Some(Some(id)),
            None => None,
        },
    }
}

/// The error that a JSON value stands for: an object with an integer under
/// `code` and a text under `message`. What stands under `data` is its data.
pub open spec fn json_error(json: JsonModel) -> Option<RpcErrorModel> {
    match json {
        JsonModel::Object(members) => match (member(members, "code"@), member(members, "message"@)) {
            (Some(code), Some(JsonModel::Str(message))) => match json_code(code) {
                Some(code) => Some(RpcErrorModel { code, message, data: member(members, "data"@) }),
                None => None,
            },
            _ => None,
        },
        _ => None,
    }
}

/// Whether the members name a version of the protocol that is accepted:
/// "2.0", or none at all where `strict` is off.
pub open spec fn version_accepted(members: Seq<(Seq<char>, JsonModel)>, strict: bool) -> bool {
    match member(members, "jsonrpc"@) {
        Some(version) => version == JsonModel::Str("2.0"@),
        None => !strict,
    }
}

/// The response that the members stand for. They hold an id, which may be
/// `null`, and either a result or an error, not both.
pub open spec fn json_response(members: Seq<(Seq<char>, JsonModel)>) -> Option<ResponseModel> {
    match member(members, "id"@) {
        None => None,
        Some(id) => match json_optional_id(id) {
            None => None,
            Some(id) => match (member(members, "result"@), member(members, "error"@)) {
                (Some(result), None) => Some(ResponseModel { result: Ok(result), id }),
                (None, Some(error)) => match json_error(error) {
                    Some(error) => Some(ResponseModel { result: Err(error), id }),
                    None => None,
                },
                _ => None,
            },
        },
    }
}

/// The message that a JSON value stands for, if it is one message and no
/// batch. A member `method` makes it a request or, where it has no id, a
/// notification; without `method` it is a response. Members of other names
/// are ignored.
pub open spec fn json_single(json: JsonModel, strict: bool) -> Option<SingleModel> {
    match json {
        JsonModel::Object(members) => if !version_accepted(members, strict) {
            None
        } else {
            match member(members, "method"@) {
                Some(JsonModel::Str(method)) => if member(members, "result"@) is Some || member(
                    members,
                    "error"@,
                ) is Some {
                    None
                } else {
                    match member(members, "id"@) {
                        None => Some(
                            SingleModel::Notification(
                                NotificationModel { method, params: member(members, "params"@) },
                            ),
                        ),
                        Some(id) => match json_id(id) {
                            Some(id) => Some(
                                SingleModel::Request(
                                    RequestModel { method, params: member(members, "params"@), id },
                                ),
                            ),
                            None => None,
                        },
                    }
                },
                Some(_) => None,
                None => match json_response(members) {
                    Some(response) => Some(SingleModel::Response(response)),
                    None => None,
                },
            }
        },
        _ => None,
    }
}

/// Whether each of the first `upto` values stands for one message.
pub open spec fn all_single(items: Seq<JsonModel>, upto: int, strict: bool) -> bool {
    forall|i: int| 0 <= i < upto ==> (#[trigger] json_single(items[i], strict)) is Some
}

/// The message that a JSON value stands for: an object is one message, and
/// an array that is not empty and holds nothing but messages is a batch.
pub open spec fn json_message(json: JsonModel, strict: bool) -> Option<MessageModel> {
    match json {
        JsonModel::Array(items) => if items.len() > 0 && all_single(items, items.len() as int, strict) {
            Some(MessageModel::Batch(Seq::new(items.len(), |i: int| json_single(items[i], strict)->Some_0)))
        } else {
            None
        },
        _ => match json_single(json, strict) {
            Some(single) => Some(MessageModel::Single(single)),
            None => None,
        },
    }
}

fn encode_id(id: &Id) -> (json: Json)
    ensures
        json@ == id_json(id@),
{
    match id {
        Id::Number(number) => Json::Number(number.clone()),
        Id::Text(text) => Json::Str(text.clone()),
    }
}

fn encode_code(code: i64) -> (json: Json)
    ensures
        json@ == code_json(code as int),
{
    if code >= 0 {
        Json::Number(Number::Pos(code as u64))
    } else {
        Json::Number(Number::Neg(code))
    }
}

fn encode_error(error: &RpcError) -> (json: Json)
    ensures
        json@ == error_json(error@),
{
    let mut members: Vec<(String, Json)> = Vec::new();
    members.push((String::from_str("code"), encode_code(error.code)));
    members.push((String::from_str("message"), Json::Str(error.message.clone())));
    match &error.data {
        Some(data) => {
            members.push((String::from_str("data"), data.clone()));
        },
        None => {},
    }
    proof {
        lemma_object_model(members);
        assert(member_models(members@) =~= seq![
            ("code"@, code_json(error@.code)),
            ("message"@, JsonModel::Str(error@.message)),
        ] + optional_member("data"@, error@.data));
    }
    Json::Object(members)
}

fn version_entry() -> (entry: (String, Json))
    ensures
        (entry.0@, entry.1@) == version_member(),
{
    (String::from_str("jsonrpc"), Json::Str(String::from_str("2.0")))
}

impl Single {
    /// The message as JSON, for the wire.
    pub fn encode(&self) -> (json: Json)
        ensures
            json@ == single_json(self@),
    {
        let mut members: Vec<(String, Json)> = Vec::new();
        members.push(version_entry());
        match self {
            Single::Request(request) => {
                members.push((String::from_str("method"), Json::Str(request.method.clone())));
                match &request.params {
                    Some(params) => {
                        members.push((String::from_str("params"), params.clone()));
                    },
                    None => {},
                }
                members.push((String::from_str("id"), encode_id(&request.id)));
                proof {
                    assert(member_models(members@) =~= seq![
                        version_member(),
                        ("method"@, JsonModel::Str(request@.method)),
                    ] + optional_member("params"@, request@.params) + seq![("id"@, id_json(request@.id))]);
                }
            },
            Single::Notification(note) => {
                members.push((String::from_str("method"), Json::Str(note.method.clone())));
                match &note.params {
                    Some(params) => {
                        members.push((String::from_str("params"), params.clone()));
                    },
                    None => {},
                }
                proof {
                    assert(member_models(members@) =~= seq![
                        version_member(),
                        ("method"@, JsonModel::Str(note@.method)),
                    ] + optional_member("params"@, note@.params));
                }
            },
            Single::Response(response) => {
                match &response.result {
                    Ok(result) => {
                        members.push((String::from_str("result"), result.clone()));
                    },
                    Err(error) => {
                        members.push((String::from_str("error"), encode_error(error)));
                    },
                }
                let id = match &response.id {
                    Some(id) => encode_id(id),
                    None => Json::Null,
                };
                members.push((String::from_str("id"), id));
                proof {
                    assert(member_models(members@) =~= seq![
                        version_member(),
                        outcome_member(response@.result),
                        ("id"@, optional_id_json(response@.id)),
                    ]);
                }
            },
        }
        proof {
            lemma_object_model(members);
        }
        Json::Object(members)
    }
}

impl Message {
    /// The message as JSON, for the wire: one object, or an array of objects
    /// for a batch.
    pub fn encode(&self) -> (json: Json)
        ensures
            json@ == message_json(self@),
    {
        match self {
            Message::Single(single) => single.encode(),
            Message::Batch(entries) => {
                let mut items: Vec<Json> = Vec::new();
                let mut i: usize = 0;
                while i < entries.len()
                    invariant
                        i <= entries.len(),
                        items.len() == i,
                        forall|k: int| 0 <= k < i ==> items@[k]@ == single_json(#[trigger] entries@[k]@),
                    decreases entries.len() - i,
                {
                    items.push(entries[i].encode());
                    i += 1;
                }
                proof {
                    lemma_array_model(items);
                    assert(models(items@) =~= Seq::new(
                        single_models(entries@).len(),
                        |k: int| single_json(single_models(entries@)[k]),
                    ));
                }
                Json::Array(items)
            },
        }
    }
}

/// The model of an error that may be absent.
pub open spec fn optional_error_model(error: Option<RpcError>) -> Option<RpcErrorModel> {
    match error {
        Some(error) => Some(error@),
        None => None,
    }
}

/// The model of a message that may be absent.
pub open spec fn optional_single_model(single: Option<Single>) -> Option<SingleModel> {
    match single {
        Some(single) => Some(single@),
        None => None,
    }
}

fn decode_id(json: &Json) -> (id: Option<Id>)
    ensures
        optional_id_model(id) == json_id(json@),
{
    match json {
        Json::Number(number) => Some(Id::Number(number.clone())),
        Json::Str(text) => Some(Id::Text(text.clone())),
        _ => None,
    }
}

fn decode_code(json: &Json) -> (code: Option<i64>)
    ensures
        json_code(json@) == match code {
            Some(code) => Some(code as int),
            None => None,
        },
{
    match json {
        Json::Number(Number::Pos(n)) => if *n <= 0x7fff_ffff_ffff_ffffu64 {
            Some(*n as i64)
        } else {
            None
        },
        Json::Number(Number::Neg(n)) => Some(*n),
        _ => None,
    }
}

fn lookup_copy(members: &Vec<(String, Json)>, name: &str) -> (value: Option<Json>)
    ensures
        optional_model(value) == member(member_models(members@), name@),
{
    match lookup(members, name) {
        Some(value) => Some(value.clone()),
        None => None,
    }
}

fn decode_error(json: &Json) -> (error: Option<RpcError>)
    ensures
        optional_error_model(error) == json_error(json@),
{
    match json {
        Json::Object(members) => {
            proof {
                lemma_object_model(*members);
            }
            let code = match lookup(members, "code") {
                Some(code) => decode_code(code),
                None => None,
            };
            match (code, lookup(members, "message")) {
                (Some(code), Some(Json::Str(message))) => Some(
                    RpcError { code, message: message.clone(), data: lookup_copy(members, "data") },
                ),
                _ => None,
            }
        },
        _ => None,
    }
}

fn version_is_accepted(members: &Vec<(String, Json)>, strict: bool) -> (accepted: bool)
    ensures
        accepted == version_accepted(member_models(members@), strict),
{
    match lookup(members, "jsonrpc") {
        Some(Json::Str(version)) => {
            let wanted = String::from_str("2.0");
            *version == wanted
        },
        Some(_) => false,
        None => !strict,
    }
}

fn decode_response(members: &Vec<(String, Json)>) -> (response: Option<Response>)
    ensures
        json_response(member_models(members@)) == match response {
            Some(response) => Some(response@),
            None => None,
        },
{
    let id = match lookup(members, "id") {
        None => {
            return None;
        },
        Some(Json::Null) => None,
        Some(id) => match decode_id(id) {
            Some(id) => Some(id),
            None => {
                return None;
            },
        },
    };
    match (lookup(members, "result"), lookup(members, "error")) {
        (Some(result), None) => Some(Response { result: Ok(result.clone()), id }),
        (None, Some(error)) => match decode_error(error) {
            Some(error) => Some(Response { result: Err(error), id }),
            None => None,
        },
        _ => None,
    }
}

impl Single {
    /// Reads one message from a JSON value, or says that the value is none.
    /// With `strict` the version of the protocol must be named.
    pub fn decode(json: &Json, strict: bool) -> (single: Option<Single>)
        ensures
            optional_single_model(single) == json_single(json@, strict),
    {
        match json {
            Json::Object(members) => {
                proof {
                    lemma_object_model(*members);
                }
                if !version_is_accepted(members, strict) {
                    return None;
                }
                match lookup(members, "method") {
                    Some(Json::Str(method)) => {
                        if lookup(members, "result").is_some() || lookup(members, "error").is_some() {
                            return None;
                        }
                        match lookup(members, "id") {
                            None => Some(
                                Single::Notification(
                                    Notification {
                                        method: method.clone(),
                                        params: lookup_copy(members, "params"),
                                    },
                                ),
                            ),
                            Some(id) => match decode_id(id) {
                                Some(id) => Some(
                                    Single::Request(
                                        Request {
                                            method: method.clone(),
                                            params: lookup_copy(members, "params"),
                                            id,
                                        },
                                    ),
                                ),
                                None => None,
                            },
                        }
                    },
                    Some(_) => None,
                    None => match decode_response(members) {
                        Some(response) => Some(Single::Response(response)),
                        None => None,
                    },
                }
            },
            _ => None,
        }
    }
}

impl Message {
    /// Reads a message from a JSON value. A value that is no message is an
    /// error of the envelope, never a panic: the caller can answer it.
    pub fn decode(json: &Json, strict: bool) -> (r: Result<Message, DecodeError>)
        ensures
            match r {
                Ok(message) => json_message(json@, strict) == Some(message@),
                Err(error) => json_message(json@, strict) is None && error is Envelope,
            },
    {
        match json {
            Json::Array(items) => {
                proof {
                    lemma_array_model(*items);
                }
                if items.len() == 0 {
                    return Err(DecodeError::Envelope);
                }
                let ghost values = models(items@);
                let mut entries: Vec<Single> = Vec::new();
                let mut i: usize = 0;
                while i < items.len()
                    invariant
                        i <= items.len(),
                        entries.len() == i,
                        values == models(items@),
                        json@ == JsonModel::Array(values),
                        values.len() > 0,
                        all_single(values, i as int, strict),
                        forall|k: int| 0 <= k < i ==> json_single(values[k], strict) == Some(#[trigger] entries@[k]@),
                    decreases items.len() - i,
                {
                    match Single::decode(&items[i], strict) {
                        Some(single) => {
                            entries.push(single);
                        },
                        None => {
                            assert(json_single(values[i as int], strict) is None);
                            return Err(DecodeError::Envelope);
                        },
                    }
                    i += 1;
                }
                proof {
                    assert(single_models(entries@) =~= Seq::new(
                        values.len(),
                        |k: int| json_single(values[k], strict)->Some_0,
                    ));
                }
                Ok(Message::Batch(entries))
            },
            _ => match Single::decode(json, strict) {
                Some(single) => Ok(Message::Single(single)),
                None => Err(DecodeError::Envelope),
            },
        }
    }
}

impl Clone for Request {
    fn clone(&self) -> (request: Request)
        ensures
            request@ == self@,
    {
        Request {
            method: self.method.clone(),
            params: clone_optional(&self.params),
            id: self.id.clone(),
        }
    }
}

impl Clone for Response {
    fn clone(&self) -> (response: Response)
        ensures
            response@ == self@,
    {
        let result = match &self.result {
            Ok(json) => Ok(json.clone()),
            Err(error) => Err(error.clone()),
        };
        let id = match &self.id {
            Some(id) => Some(id.clone()),
            None => None,
        };
        Response { result, id }
    }
}

impl Single {
    /// A deep copy of the message.
    pub fn clone_single(&self) -> (single: Single)
        ensures
            single@ == self@,
    {
        match self {
            Single::Request(request) => Single::Request(request.clone()),
            Single::Notification(note) => Single::Notification(note.clone()),
            Single::Response(response) => Single::Response(response.clone()),
        }
    }
}

} // verus!
