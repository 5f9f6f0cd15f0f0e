use vstd::prelude::*;
use crate::json::{JsonModel, member};
use crate::error::RpcErrorModel;
use crate::endpoint::{
    ActionModel, CallModel, EndpointModel, Phase, at_rest, call_position, landed, landed_all,
    note_action, reply_model, resolved_model, settled,
};
use crate::server::ServerCtlModel;
use crate::message::{
    Message, IdModel, MessageModel, SingleModel, code_json, json_code, optional_member,
    version_member, outcome_member, id_json, optional_id_json, error_json, single_json,
    message_json, json_id, json_optional_id, json_error, json_single, json_message,
};

verus! {

/// Whether a message can travel: every error code in it fits an error code
/// of the wire, and a batch has at least one entry.
pub open spec fn travels(message: MessageModel) -> bool {
    match message {
        MessageModel::Single(single) => single_travels(single),
        MessageModel::Batch(entries) => entries.len() > 0 && forall|i: int|
            0 <= i < entries.len() ==> single_travels(#[trigger] entries[i]),
    }
}

/// Whether a message that is no batch can travel.
pub open spec fn single_travels(single: SingleModel) -> bool {
    match single {
        SingleModel::Response(response) => match response.result {
            Err(error) => i64::MIN <= error.code <= i64::MAX,
            Ok(_) => true,
        },
        _ => true,
    }
}

/// The value under a name that is added last is the one that is found, and
/// the values under other names stay as they were.
pub proof fn lemma_member_push(
    members: Seq<(Seq<char>, JsonModel)>,
    name: Seq<char>,
    value: JsonModel,
    wanted: Seq<char>,
)
    ensures
        member(members.push((name, value)), wanted) == if name == wanted {
            Some(value)
        } else {
            member(members, wanted)
        },
{
    assert(members.push((name, value)).drop_last() =~= members);
}

/// The names of the members of a message differ from one another.
proof fn lemma_names_differ()
    ensures
        "jsonrpc"@ != "method"@,
        "jsonrpc"@ != "params"@,
        "jsonrpc"@ != "id"@,
        "jsonrpc"@ != "result"@,
        "jsonrpc"@ != "error"@,
        "method"@ != "params"@,
        "method"@ != "id"@,
        "method"@ != "result"@,
        "method"@ != "error"@,
        "params"@ != "id"@,
        "params"@ != "result"@,
        "params"@ != "error"@,
        "id"@ != "result"@,
        "id"@ != "error"@,
        "result"@ != "error"@,
        "code"@ != "message"@,
        "code"@ != "data"@,
        "message"@ != "data"@,
{
    reveal_strlit("jsonrpc");
    reveal_strlit("method");
    reveal_strlit("params");
    reveal_strlit("id");
    reveal_strlit("result");
    reveal_strlit("error");
    reveal_strlit("code");
    reveal_strlit("message");
    reveal_strlit("data");
    assert("method"@[0] != "params"@[0]);
    assert("method"@[0] != "result"@[0]);
    assert("params"@[0] != "result"@[0]);
    assert("jsonrpc"@[0] != "message"@[0]);
    assert("code"@[0] != "data"@[0]);
    assert("id"@.len() != "error"@.len());
}

/// An error code comes back from the wire as it went.
proof fn lemma_code_round_trip(code: int)
    requires
        i64::MIN <= code <= i64::MAX,
    ensures
        json_code(code_json(code)) == Some(code),
{
}

/// An error comes back from the wire as it went.
proof fn lemma_error_round_trip(error: RpcErrorModel)
    requires
        i64::MIN <= error.code <= i64::MAX,
    ensures
        json_error(error_json(error)) == Some(error),
{
    lemma_names_differ();
    lemma_code_round_trip(error.code);
    let code = ("code"@, code_json(error.code));
    let message = ("message"@, JsonModel::Str(error.message));
    let base = Seq::<(Seq<char>, JsonModel)>::empty().push(code).push(message);
    assert(base =~= seq![code, message]);
    assert forall|wanted: Seq<char>| member(Seq::<(Seq<char>, JsonModel)>::empty(), wanted) is None by {}
    match error.data {
        Some(data) => {
            let members = base.push(("data"@, data));
            assert(members =~= seq![code, message] + optional_member("data"@, error.data));
            lemma_member_push(base, "data"@, data, "code"@);
            lemma_member_push(base, "data"@, data, "message"@);
            lemma_member_push(base, "data"@, data, "data"@);
        },
        None => {
            assert(base =~= seq![code, message] + optional_member("data"@, error.data));
        },
    }
    lemma_member_push(Seq::empty().push(code), "message"@, JsonModel::Str(error.message), "code"@);
    lemma_member_push(Seq::empty().push(code), "message"@, JsonModel::Str(error.message), "message"@);
    lemma_member_push(Seq::empty().push(code), "message"@, JsonModel::Str(error.message), "data"@);
    lemma_member_push(Seq::empty(), "code"@, code_json(error.code), "code"@);
    lemma_member_push(Seq::empty(), "code"@, code_json(error.code), "message"@);
    lemma_member_push(Seq::empty(), "code"@, code_json(error.code), "data"@);
}

/// `lemma_member_push` for each name that the reading of a message asks for.
proof fn lemma_member_push_all(members: Seq<(Seq<char>, JsonModel)>, name: Seq<char>, value: JsonModel)
    ensures
        forall|wanted: Seq<char>|
            wanted == "jsonrpc"@ || wanted == "method"@ || wanted == "params"@ || wanted == "id"@
                || wanted == "result"@ || wanted == "error"@ ==> #[trigger] member(
                members.push((name, value)),
                wanted,
            ) == if name == wanted {
                Some(value)
            } else {
                member(members, wanted)
            },
{
    lemma_member_push(members, name, value, "jsonrpc"@);
    lemma_member_push(members, name, value, "method"@);
    lemma_member_push(members, name, value, "params"@);
    lemma_member_push(members, name, value, "id"@);
    lemma_member_push(members, name, value, "result"@);
    lemma_member_push(members, name, value, "error"@);
}

/// An id comes back from the wire as it went.
proof fn lemma_id_round_trip(id: IdModel)
    ensures
        json_id(id_json(id)) == Some(id),
        json_optional_id(id_json(id)) == Some(Some(id)),
        json_optional_id(optional_id_json(None)) == Some(None::<IdModel>),
{
}

/// One message comes back from the wire as it went, whether or not the
/// version is asked for.
pub proof fn lemma_single_round_trip(single: SingleModel, strict: bool)
    requires
        single_travels(single),
    ensures
        json_single(single_json(single), strict) == Some(single),
{
    lemma_names_differ();
    let nothing = Seq::<(Seq<char>, JsonModel)>::empty();
    let version = nothing.push(version_member());
    lemma_member_push_all(nothing, version_member().0, version_member().1);
    match single {
        SingleModel::Request(request) => {
            lemma_id_round_trip(request.id);
            let method = version.push(("method"@, JsonModel::Str(request.method)));
            lemma_member_push_all(version, "method"@, JsonModel::Str(request.method));
            match request.params {
                Some(params) => {
                    let with_params = method.push(("params"@, params));
                    lemma_member_push_all(method, "params"@, params);
                    let whole = with_params.push(("id"@, id_json(request.id)));
                    lemma_member_push_all(with_params, "id"@, id_json(request.id));
                    assert(single_json(single) == JsonModel::Object(whole)) by {
                        assert(whole =~= seq![version_member(), ("method"@, JsonModel::Str(request.method))]
                            + optional_member("params"@, request.params) + seq![
                            ("id"@, id_json(request.id)),
                        ]);
                    }
                },
                None => {
                    let whole = method.push(("id"@, id_json(request.id)));
                    lemma_member_push_all(method, "id"@, id_json(request.id));
                    assert(single_json(single) == JsonModel::Object(whole)) by {
                        assert(whole =~= seq![version_member(), ("method"@, JsonModel::Str(request.method))]
                            + optional_member("params"@, request.params) + seq![
                            ("id"@, id_json(request.id)),
                        ]);
                    }
                },
            }
        },
        SingleModel::Notification(note) => {
            let method = version.push(("method"@, JsonModel::Str(note.method)));
            lemma_member_push_all(version, "method"@, JsonModel::Str(note.method));
            match note.params {
                Some(params) => {
                    let whole = method.push(("params"@, params));
                    lemma_member_push_all(method, "params"@, params);
                    assert(single_json(single) == JsonModel::Object(whole)) by {
                        assert(whole =~= seq![version_member(), ("method"@, JsonModel::Str(note.method))]
                            + optional_member("params"@, note.params));
                    }
                },
                None => {
                    assert(single_json(single) == JsonModel::Object(method)) by {
                        assert(method =~= seq![version_member(), ("method"@, JsonModel::Str(note.method))]
                            + optional_member("params"@, note.params));
                    }
                },
            }
        },
        SingleModel::Response(response) => {
            match response.id {
                Some(id) => {
                    lemma_id_round_trip(id);
                },
                None => {},
            }
            let outcome = outcome_member(response.result);
            if let Err(error) = response.result {
                lemma_error_round_trip(error);
            }
            let with_outcome = version.push(outcome);
            lemma_member_push_all(version, outcome.0, outcome.1);
            let whole = with_outcome.push(("id"@, optional_id_json(response.id)));
            lemma_member_push_all(with_outcome, "id"@, optional_id_json(response.id));
            assert(single_json(single) == JsonModel::Object(whole)) by {
                assert(whole =~= seq![version_member(), outcome, ("id"@, optional_id_json(response.id))]);
            }
        },
    }
}

/// Round trip: a message that can travel comes back from the wire as it
/// went. To read what `message_json` wrote gives the message again, whether
/// or not the version of the protocol is asked for.
pub proof fn law_round_trip(message: MessageModel, strict: bool)
    requires
        travels(message),
    ensures
        json_message(message_json(message), strict) == Some(message),
{
    match message {
        MessageModel::Single(single) => {
            lemma_single_round_trip(single, strict);
        },
        MessageModel::Batch(entries) => {
            let items = Seq::new(entries.len(), |i: int| single_json(entries[i]));
            assert forall|i: int| 0 <= i < items.len() implies #[trigger] json_single(items[i], strict)
                == Some(entries[i]) by {
                lemma_single_round_trip(entries[i], strict);
            }
            assert(Seq::new(items.len(), |i: int| json_single(items[i], strict)->Some_0) =~= entries);
        },
    }
}

/// Round trip for the messages that a program holds: each comes back from
/// the wire as it went, but for a batch without entries, which is no
/// message on the wire.
pub proof fn law_round_trip_of_message(message: Message, strict: bool)
    requires
        message matches Message::Batch(entries) ==> entries.len() > 0,
    ensures
        json_message(message_json(message@), strict) == Some(message@),
{
    assert(travels(message@)) by {
        match message {
            Message::Single(single) => {
                assert(single_travels(single@));
            },
            Message::Batch(entries) => {
                assert forall|i: int| 0 <= i < message@->Batch_0.len() implies single_travels(
                    #[trigger] message@->Batch_0[i],
                ) by {
                    assert(message@->Batch_0[i] == entries@[i]@);
                }
            },
        }
    }
    law_round_trip(message@, strict);
}

/// The first call under a token stands where `call_position` says: no call
/// before it has the token.
pub proof fn lemma_call_position_is_first(calls: Seq<CallModel>, token: u64, from: int)
    requires
        0 <= from <= calls.len(),
    ensures
        from <= call_position(calls, token, from) <= calls.len(),
        call_position(calls, token, from) < calls.len() ==> calls[call_position(
            calls,
            token,
            from,
        )].token == token,
        forall|k: int| from <= k < call_position(calls, token, from) ==> calls[k].token != token,
    decreases calls.len() - from,
{
    if from < calls.len() && calls[from].token != token {
        lemma_call_position_is_first(calls, token, from + 1);
    }
}

/// `call_position` finds the first call under a token wherever it stands.
pub proof fn lemma_first_is_call_position(calls: Seq<CallModel>, token: u64, from: int, at: int)
    requires
        0 <= from <= at <= calls.len(),
        forall|k: int| from <= k < at ==> calls[k].token != token,
        at < calls.len() ==> calls[at].token == token,
    ensures
        call_position(calls, token, from) == at,
    decreases at - from,
{
    if from < at {
        lemma_first_is_call_position(calls, token, from + 1, at);
    }
}

/// A closed connection has nothing in flight: no call is abandoned by the
/// close.
pub proof fn law_closed_has_landed(endpoint: EndpointModel)
    requires
        at_rest(endpoint),
        endpoint.phase is Closed,
    ensures
        landed_all(endpoint.flights),
{
}

/// Termination waits: to ask for the end of a connection that has calls in
/// flight closes nothing yet. The connection stops taking frames and stays
/// open for the replies.
pub proof fn law_termination_waits<R, N>(before: EndpointModel)
    requires
        at_rest(before),
        !(before.phase is Closed),
        !landed_all(before.flights),
    ensures
        settled::<R, N>(
            EndpointModel { ctl: ServerCtlModel { terminated: true, ..before.ctl }, ..before },
        ) == (
            EndpointModel {
                phase: Phase::Terminating,
                ctl: ServerCtlModel { terminated: true, ..before.ctl },
                ..before
            },
            Seq::<ActionModel<R, N>>::empty(),
        ),
{
    let asked = EndpointModel { ctl: ServerCtlModel { terminated: true, ..before.ctl }, ..before };
    assert(settled::<R, N>(asked).1 =~= Seq::<ActionModel<R, N>>::empty());
    assert(asked.ctl.notes =~= Seq::empty());
}

/// Termination drains: the reply to a call of its own goes out when the
/// call resolves, whatever the state of the connection, and it goes out
/// first. The connection closes behind it, and only where it was
/// terminating and this call was the last thing in flight.
pub proof fn law_reply_before_close<R, N>(
    before: EndpointModel,
    token: u64,
    outcome: Result<JsonModel, RpcErrorModel>,
)
    requires
        at_rest(before),
        call_position(before.flights.calls, token, 0) < before.flights.calls.len(),
    ensures
        ({
            let at = call_position(before.flights.calls, token, 0);
            let (after, due) = resolved_model::<R, N>(before, token, outcome);
            let last = before.phase is Terminating && before.flights.calls.len() == 1
                && before.flights.batches.len() == 0;
            &&& due == if last {
                seq![
                    ActionModel::<R, N>::Send(
                        MessageModel::Single(reply_model(before.flights.calls[at].id, outcome)),
                    ),
                    ActionModel::Close,
                ]
            } else {
                seq![
                    ActionModel::<R, N>::Send(
                        MessageModel::Single(reply_model(before.flights.calls[at].id, outcome)),
                    ),
                ]
            }
            &&& after.phase == if last {
                Phase::Closed
            } else {
                before.phase
            }
            &&& after.flights.calls == before.flights.calls.remove(at)
            &&& after.flights.batches == before.flights.batches
        }),
{
    lemma_call_position_is_first(before.flights.calls, token, 0);
    let at = call_position(before.flights.calls, token, 0);
    let (flights, reply) = landed(before.flights, token, outcome);
    let landed_state = EndpointModel { flights, ..before };
    let (after, rest) = settled::<R, N>(landed_state);
    let sends = Seq::new(landed_state.ctl.notes.len(), |i: int| note_action::<R, N>(landed_state.ctl.notes[i]));
    assert(sends =~= Seq::<ActionModel<R, N>>::empty());
    let send = ActionModel::<R, N>::Send(
        MessageModel::Single(reply_model(before.flights.calls[at].id, outcome)),
    );
    if before.phase is Terminating && before.flights.calls.len() == 1 && before.flights.batches.len()
        == 0 {
        assert(flights.calls =~= Seq::empty());
        assert(seq![send] + rest =~= seq![send, ActionModel::Close]);
    } else {
        assert(seq![send] + rest =~= seq![send]);
    }
}

/// Out-of-order replies: of two calls in flight, the one that resolves
/// first is answered first, whichever arrived first. Each reply goes out
/// under the id of its own request.
pub proof fn law_replies_follow_resolution<R, N>(
    before: EndpointModel,
    early: u64,
    late: u64,
    early_outcome: Result<JsonModel, RpcErrorModel>,
    late_outcome: Result<JsonModel, RpcErrorModel>,
)
    requires
        at_rest(before),
        early != late,
        call_position(before.flights.calls, early, 0) < before.flights.calls.len(),
        call_position(before.flights.calls, late, 0) < before.flights.calls.len(),
    ensures
        ({
            let calls = before.flights.calls;
            let first = resolved_model::<R, N>(before, early, early_outcome);
            let second = resolved_model::<R, N>(first.0, late, late_outcome);
            &&& first.1[0] == ActionModel::<R, N>::Send(
                MessageModel::Single(
                    reply_model(calls[call_position(calls, early, 0)].id, early_outcome),
                ),
            )
            &&& second.1[0] == ActionModel::<R, N>::Send(
                MessageModel::Single(reply_model(calls[call_position(calls, late, 0)].id, late_outcome)),
            )
        }),
{
    let calls = before.flights.calls;
    lemma_call_position_is_first(calls, early, 0);
    lemma_call_position_is_first(calls, late, 0);
    let at_early = call_position(calls, early, 0);
    let at_late = call_position(calls, late, 0);
    law_reply_before_close::<R, N>(before, early, early_outcome);
    let first = resolved_model::<R, N>(before, early, early_outcome);
    let rest = calls.remove(at_early);
    let moved = if at_late < at_early {
        at_late
    } else {
        at_late - 1
    };
    assert(rest[moved] == calls[at_late]);
    assert forall|k: int| 0 <= k < moved implies rest[k].token != late by {
        if k < at_early {
            assert(rest[k] == calls[k]);
        } else {
            assert(rest[k] == calls[k + 1]);
        }
    }
    lemma_first_is_call_position(rest, late, 0, moved);
    assert(at_rest(first.0)) by {
        assert(first.0.flights.batches == before.flights.batches);
    }
    law_reply_before_close::<R, N>(first.0, late, late_outcome);
}

} // verus!
