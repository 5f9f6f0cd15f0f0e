use vstd::prelude::*;
use vstd::string::StringExecFns;
use serde::de::DeserializeOwned;
use crate::json::{
    Json, JsonModel, optional_model, models, member_models, member, clone_items, lookup,
    lemma_array_model, lemma_object_model,
};
use crate::error::{RpcError, RpcErrorModel, invalid_params_model};
use crate::text::{decimal, decimal_text};
use crate::wire::decode_as;

verus! {

/// Whether parameters stand for "no parameters": absent, `null`, an empty
/// array or an empty object.
pub open spec fn stands_for_nothing(params: Option<JsonModel>) -> bool {
    match params {
        None => true,
        Some(JsonModel::Null) => true,
        Some(JsonModel::Array(items)) => items.len() == 0,
        Some(JsonModel::Object(entries)) => entries.len() == 0,
        Some(_) => false,
    }
}

/// The text of the error for an array of the wrong length.
pub open spec fn wrong_count_text(expected: nat, got: nat) -> Seq<char> {
    "Wrong number of parameters: expected: "@ + decimal(expected) + ", got: "@ + decimal(got)
}

/// The error for a value that does not fit the type asked for; `why` is the
/// reason that the decoder gave.
pub open spec fn incompatible_model(why: Seq<char>) -> RpcErrorModel {
    invalid_params_model(Some("Incompatible type: "@ + why))
}

/// Whether an error says that some value does not fit the type asked for.
pub open spec fn is_incompatible(error: RpcErrorModel) -> bool {
    exists|why: Seq<char>| error == incompatible_model(why)
}

/// Positional decoding: the values to decode, in order, or the error.
pub open spec fn positional_model(params: Option<JsonModel>, arity: nat) -> Result<
    Seq<JsonModel>,
    RpcErrorModel,
> {
    match params {
        None => Err(invalid_params_model(Some("Expected parameters"@))),
        Some(JsonModel::Array(items)) => if items.len() == arity {
            Ok(items)
        } else {
            Err(invalid_params_model(Some(wrong_count_text(arity, items.len()))))
        },
        Some(_) => Err(invalid_params_model(Some("Expected an array as parameters"@))),
    }
}

/// The value that stands under `name`; `null` where the object has no such
/// member.
pub open spec fn named_value(entries: Seq<(Seq<char>, JsonModel)>, name: Seq<char>) -> JsonModel {
    match member(entries, name) {
        Some(value) => value,
        None => JsonModel::Null,
    }
}

/// Named decoding: the values to decode, one for each name in order, or the
/// error. Members of other names are ignored.
pub open spec fn named_model(params: Option<JsonModel>, names: Seq<Seq<char>>) -> Result<
    Seq<JsonModel>,
    RpcErrorModel,
> {
    match params {
        None => Err(invalid_params_model(Some("Expected parameters"@))),
        Some(JsonModel::Object(entries)) => Ok(
            Seq::new(names.len(), |i: int| named_value(entries, names[i])),
        ),
        Some(_) => Err(invalid_params_model(Some("Expected an object as parameters"@))),
    }
}

/// Decoding that goes by what arrived: an array is read by position, an
/// object by name.
pub open spec fn decide_model(params: Option<JsonModel>, names: Seq<Seq<char>>) -> Result<
    Seq<JsonModel>,
    RpcErrorModel,
> {
    match params {
        None => Err(invalid_params_model(Some("Expected parameters"@))),
        Some(JsonModel::Array(_)) => positional_model(params, names.len()),
        Some(JsonModel::Object(_)) => named_model(params, names),
        Some(_) => Err(invalid_params_model(Some("Expected an object or an array as parameters"@))),
    }
}

/// The names of a list of parameters as sequences of characters.
pub open spec fn name_models(names: Seq<&str>) -> Seq<Seq<char>> {
    Seq::new(names.len(), |i: int| names[i]@)
}

/// Whether the values found are those that the model asks for.
pub open spec fn found(
    r: Result<Vec<Json>, RpcError>,
    model: Result<Seq<JsonModel>, RpcErrorModel>,
) -> bool {
    match r {
        Ok(values) => model == Ok::<Seq<JsonModel>, RpcErrorModel>(models(values@)),
        Err(error) => model == Err::<Seq<JsonModel>, RpcErrorModel>(error@),
    }
}

fn complaint(text: &str) -> (e: RpcError)
    ensures
        e@ == invalid_params_model(Some(text@)),
{
    RpcError::invalid_params(Some(String::from_str(text)))
}

/// Accepts parameters that stand for "no parameters", and refuses all others.
pub fn expect_no_params(params: &Option<Json>) -> (r: Result<(), RpcError>)
    ensures
        r is Ok <==> stands_for_nothing(optional_model(*params)),
        r matches Err(e) ==> e@ == invalid_params_model(Some("Expected no params"@)),
{
    let nothing = match params {
        None => true,
        Some(Json::Null) => true,
        Some(Json::Array(items)) => {
            proof {
                lemma_array_model(*items);
            }
            items.len() == 0
        },
        Some(Json::Object(entries)) => {
            proof {
                lemma_object_model(*entries);
            }
            entries.len() == 0
        },
        Some(_) => false,
    };
    if nothing {
        Ok(())
    } else {
        Err(complaint("Expected no params"))
    }
}

fn wrong_count(expected: usize, got: usize) -> (e: RpcError)
    ensures
        e@ == invalid_params_model(Some(wrong_count_text(expected as nat, got as nat))),
{
    let mut text = String::from_str("Wrong number of parameters: expected: ");
    text.append(decimal_text(expected).as_str());
    text.append(", got: ");
    text.append(decimal_text(got).as_str());
    RpcError::invalid_params(Some(text))
}

/// The values of an array of exactly `arity` parameters, in order.
pub fn positional(params: &Option<Json>, arity: usize) -> (r: Result<Vec<Json>, RpcError>)
    ensures
        found(r, positional_model(optional_model(*params), arity as nat)),
        r matches Ok(values) ==> values.len() == arity,
{
    match params {
        None => Err(complaint("Expected parameters")),
        Some(Json::Array(items)) => {
            proof {
                lemma_array_model(*items);
            }
            if items.len() == arity {
                Ok(clone_items(items))
            } else {
                Err(wrong_count(arity, items.len()))
            }
        },
        Some(_) => Err(complaint("Expected an array as parameters")),
    }
}

/// The values that an object holds under the given names, in the order of
/// the names; `null` stands for a member that is missing.
pub fn named(params: &Option<Json>, names: &[&str]) -> (r: Result<Vec<Json>, RpcError>)
    ensures
        found(r, named_model(optional_model(*params), name_models(names@))),
        r matches Ok(values) ==> values.len() == names.len(),
{
    match params {
        None => Err(complaint("Expected parameters")),
        Some(Json::Object(entries)) => {
            proof {
                lemma_object_model(*entries);
            }
            let ghost all = member_models(entries@);
            let ghost wanted = name_models(names@);
            let mut values: Vec<Json> = Vec::new();
            let mut i: usize = 0;
            while i < names.len()
                invariant
                    i <= names.len(),
                    values.len() == i,
                    all == member_models(entries@),
                    wanted == name_models(names@),
                    forall|k: int| 0 <= k < i ==> values@[k]@ == named_value(all, wanted[k]),
                decreases names.len() - i,
            {
                let value = match lookup(entries, names[i]) {
                    Some(value) => value.clone(),
                    None => Json::Null,
                };
                values.push(value);
                i += 1;
            }
            assert(models(values@) =~= Seq::new(wanted.len(), |k: int| named_value(all, wanted[k])));
            Ok(values)
        },
        Some(_) => Err(complaint("Expected an object as parameters")),
    }
}

/// The values to decode for the given names, by position where an array
/// arrived and by name where an object arrived.
pub fn decide(params: &Option<Json>, names: &[&str]) -> (r: Result<Vec<Json>, RpcError>)
    ensures
        found(r, decide_model(optional_model(*params), name_models(names@))),
        r matches Ok(values) ==> values.len() == names.len(),
{
    match params {
        None => Err(complaint("Expected parameters")),
        Some(Json::Array(_)) => positional(params, names.len()),
        Some(Json::Object(_)) => named(params, names),
        Some(_) => Err(complaint("Expected an object or an array as parameters")),
    }
}

/// Turns the outcome of decoding one value into the result for the caller:
/// the value itself, or an `invalid params` error that carries the reason.
pub fn typed<T>(outcome: Result<T, String>) -> (r: Result<T, RpcError>)
    ensures
        match outcome {
            Ok(value) => r == Ok::<T, RpcError>(value),
            Err(why) => r matches Err(e) && e@ == incompatible_model(why@),
        },
{
    match outcome {
        Ok(value) => Ok(value),
        Err(why) => {
            let mut text = String::from_str("Incompatible type: ");
            text.append(why.as_str());
            Err(RpcError::invalid_params(Some(text)))
        },
    }
}

/// Decodes one value as a `T`.
pub fn single<T: DeserializeOwned>(value: &Json) -> (r: Result<T, RpcError>)
    ensures
        exists|outcome: Result<T, String>|
            #[trigger] decoded_as(*value, outcome) && typed_of(outcome, r),
        r matches Err(e) ==> is_incompatible(e@),
{
    let outcome = decode_as::<T>(value);
    let ghost decoded = outcome;
    let r = typed(outcome);
    assert(decoded_as(*value, decoded) && typed_of(decoded, r));
    assert(r matches Err(e) ==> e@ == incompatible_model(decoded->Err_0@));
    r
}

/// Whether `outcome` is what decoding `value` as a `T` gave: what came back
/// from `serde_json::from_value` for this value rebuilt as a
/// `serde_json::Value`. How `T` reads itself decides it, so nothing more is
/// known of it.
pub closed spec fn decoded_as<T: DeserializeOwned>(value: Json, outcome: Result<T, String>) -> bool {
    call_ensures(decode_as::<T>, (&value,), outcome)
}

/// Whether `r` is the result for the caller of the outcome of decoding one
/// value: the value itself, or an `invalid params` error that carries the
/// reason.
pub open spec fn typed_of<T>(outcome: Result<T, String>, r: Result<T, RpcError>) -> bool {
    match outcome {
        Ok(value) => r == Ok::<T, RpcError>(value),
        Err(why) => r matches Err(e) && e@ == incompatible_model(why@),
    }
}

/// Where a declared parameter stands among the parameters of a call.
pub struct SlotModel {
    /// The name under which the parameter is declared.
    pub name: Seq<char>,
    /// Its position, counted from 0, where the parameters came as an array.
    pub position: Option<nat>,
}

/// The slot of the parameter that is declared as number `index` under
/// `name`, for the parameters that arrived: it has a position where they
/// are an array, and none where they are an object.
pub open spec fn slot(params: Option<JsonModel>, name: Seq<char>, index: nat) -> SlotModel {
    SlotModel {
        name,
        position: match params {
            Some(JsonModel::Array(_)) => Some(index),
            _ => None,
        },
    }
}

/// The slot that a name and a position make.
pub open spec fn slot_at(name: Seq<char>, position: Option<usize>) -> SlotModel {
    SlotModel {
        name,
        position: match position {
            Some(index) => Some(index as nat),
            None => None,
        },
    }
}

/// The text of the error for a parameter whose value does not fit its
/// type: the declared name, the position where there is one, and the reason
/// that the decoder gave, which says what it expected and what it found.
pub open spec fn misfit_text(slot: SlotModel, why: Seq<char>) -> Seq<char> {
    "Incompatible type of parameter "@ + slot.name + match slot.position {
        Some(index) => " at position "@ + decimal(index),
        None => Seq::empty(),
    } + ": "@ + why
}

/// The error for a parameter whose value does not fit its type.
pub open spec fn misfit_model(slot: SlotModel, why: Seq<char>) -> RpcErrorModel {
    invalid_params_model(Some(misfit_text(slot, why)))
}

/// Whether `r` is the result for the caller of the outcome of decoding the
/// parameter in `slot`: the value itself, or the error of a parameter that
/// does not fit, with the reason.
pub open spec fn typed_in<T>(slot: SlotModel, outcome: Result<T, String>, r: Result<T, RpcError>) -> bool {
    match outcome {
        Ok(value) => r == Ok::<T, RpcError>(value),
        Err(why) => r matches Err(e) && e@ == misfit_model(slot, why@),
    }
}

/// Turns the outcome of decoding one parameter into the result for the
/// caller: the value itself, or an `invalid params` error that names the
/// parameter, gives its position where it has one, and carries the reason.
pub fn typed_at<T>(outcome: Result<T, String>, name: &str, position: Option<usize>) -> (r: Result<
    T,
    RpcError,
>)
    ensures
        typed_in(slot_at(name@, position), outcome, r),
{
    match outcome {
        Ok(value) => Ok(value),
        Err(why) => {
            let mut text = String::from_str("Incompatible type of parameter ");
            text.append(name);
            let ghost named = text@;
            match position {
                Some(index) => {
                    text.append(" at position ");
                    text.append(decimal_text(index).as_str());
                    assert(text@ =~= named + (" at position "@ + decimal(index as nat)));
                },
                None => {
                    assert(text@ =~= named + Seq::<char>::empty());
                },
            }
            text.append(": ");
            text.append(why.as_str());
            Err(RpcError::invalid_params(Some(text)))
        },
    }
}

/// What the reading of one parameter owes. Where the shape of the
/// parameters is refused, the result is that refusal. Else the first value
/// found is handed to the decoder, and the result is what `typed_at` makes
/// of the outcome for the slot `first`.
pub open spec fn read_one<A: DeserializeOwned>(
    shape: Result<Seq<JsonModel>, RpcErrorModel>,
    first: SlotModel,
    r: Result<(A,), RpcError>,
) -> bool {
    match shape {
        Err(refusal) => r matches Err(e) && e@ == refusal,
        Ok(items) => exists|value: Json, outcome: Result<A, String>|
            {
                &&& value@ == items[0]
                &&& #[trigger] decoded_as(value, outcome)
                &&& match outcome {
                    Ok(a) => r == Ok::<(A,), RpcError>((a,)),
                    Err(why) => r matches Err(e) && e@ == misfit_model(first, why@),
                }
            },
    }
}

/// What the reading of a second parameter owes once the first one gave
/// `a`: the value `item` is handed to the decoder, and the result is the
/// pair, or the error of the second parameter.
pub open spec fn read_second<A, B: DeserializeOwned>(
    a: A,
    item: JsonModel,
    second: SlotModel,
    r: Result<(A, B), RpcError>,
) -> bool {
    exists|value: Json, outcome: Result<B, String>|
        {
            &&& value@ == item
            &&& #[trigger] decoded_as(value, outcome)
            &&& match outcome {
                Ok(b) => r == Ok::<(A, B), RpcError>((a, b)),
                Err(why) => r matches Err(e) && e@ == misfit_model(second, why@),
            }
        }
}

/// What the reading of two parameters owes. Where the shape of the
/// parameters is refused, the result is that refusal. Else the first value
/// found is handed to the decoder. Where it does not fit, its error is the
/// result and the second value is not looked at. Where it fits, the second
/// value is handed to the decoder, and the result is the pair of the two
/// values in the order of their declaration, or the error of the second.
pub open spec fn read_two<A: DeserializeOwned, B: DeserializeOwned>(
    shape: Result<Seq<JsonModel>, RpcErrorModel>,
    first: SlotModel,
    second: SlotModel,
    r: Result<(A, B), RpcError>,
) -> bool {
    match shape {
        Err(refusal) => r matches Err(e) && e@ == refusal,
        Ok(items) => exists|value: Json, outcome: Result<A, String>|
            {
                &&& value@ == items[0]
                &&& #[trigger] decoded_as(value, outcome)
                &&& match outcome {
                    Ok(a) => read_second(a, items[1], second, r),
                    Err(why) => r matches Err(e) && e@ == misfit_model(first, why@),
                }
            },
    }
}

fn read_first<A: DeserializeOwned>(values: &Vec<Json>, name: &str, position: Option<usize>) -> (r:
    Result<(A,), RpcError>)
    requires
        values.len() >= 1,
    ensures
        read_one(
            Ok::<Seq<JsonModel>, RpcErrorModel>(models(values@)),
            slot_at(name@, position),
            r,
        ),
{
    let outcome = decode_as::<A>(&values[0]);
    let ghost decoded = outcome;
    let r = match typed_at(outcome, name, position) {
        Ok(a) => Ok((a,)),
        Err(e) => Err(e),
    };
    assert(values@[0]@ == models(values@)[0] && decoded_as(values@[0], decoded));
    r
}

fn read_both<A: DeserializeOwned, B: DeserializeOwned>(
    values: &Vec<Json>,
    first: &str,
    first_position: Option<usize>,
    second: &str,
    second_position: Option<usize>,
) -> (r: Result<(A, B), RpcError>)
    requires
        values.len() >= 2,
    ensures
        read_two(
            Ok::<Seq<JsonModel>, RpcErrorModel>(models(values@)),
            slot_at(first@, first_position),
            slot_at(second@, second_position),
            r,
        ),
{
    let outcome = decode_as::<A>(&values[0]);
    let ghost decoded = outcome;
    match typed_at(outcome, first, first_position) {
        Err(e) => {
            assert(values@[0]@ == models(values@)[0] && decoded_as(values@[0], decoded));
            Err(e)
        },
        Ok(a) => {
            let ghost given = a;
            let outcome = decode_as::<B>(&values[1]);
            let ghost next = outcome;
            let r = match typed_at(outcome, second, second_position) {
                Ok(b) => Ok((a, b)),
                Err(e) => Err(e),
            };
            assert(values@[1]@ == models(values@)[1] && decoded_as(values@[1], next));
            assert(read_second(given, models(values@)[1], slot_at(second@, second_position), r));
            assert(values@[0]@ == models(values@)[0] && decoded_as(values@[0], decoded));
            r
        },
    }
}

/// The position of the parameter that is declared as number `index`, for
/// the parameters that arrived.
fn position_of(params: &Option<Json>, name: &str, index: usize) -> (position: Option<usize>)
    ensures
        slot_at(name@, position) == slot(optional_model(*params), name@, index as nat),
{
    match params {
        Some(Json::Array(_)) => Some(index),
        _ => None,
    }
}

/// Decodes the value that was found for the parameter declared as number
/// `index` under `name`. With `positional`, `named` or `decide` for the
/// values, this reads the parameters of a method of any arity one by one.
pub fn parameter<T: DeserializeOwned>(params: &Option<Json>, value: &Json, name: &str, index: usize) -> (r:
    Result<T, RpcError>)
    ensures
        exists|outcome: Result<T, String>|
            #[trigger] decoded_as(*value, outcome) && typed_in(
                slot(optional_model(*params), name@, index as nat),
                outcome,
                r,
            ),
{
    let outcome = decode_as::<T>(value);
    let ghost decoded = outcome;
    let r = typed_at(outcome, name, position_of(params, name, index));
    assert(decoded_as(*value, decoded));
    r
}

/// Decodes an array of exactly one parameter, declared under `name`.
pub fn positional_one<A: DeserializeOwned>(params: &Option<Json>, name: &str) -> (r: Result<
    (A,),
    RpcError,
>)
    ensures
        read_one(
            positional_model(optional_model(*params), 1),
            slot(optional_model(*params), name@, 0),
            r,
        ),
{
    match positional(params, 1) {
        Err(e) => Err(e),
        Ok(values) => read_first::<A>(&values, name, position_of(params, name, 0)),
    }
}

/// Decodes an array of exactly two parameters, declared under `first` and
/// `second`, the first one first.
pub fn positional_two<A: DeserializeOwned, B: DeserializeOwned>(
    params: &Option<Json>,
    first: &str,
    second: &str,
) -> (r: Result<(A, B), RpcError>)
    ensures
        read_two(
            positional_model(optional_model(*params), 2),
            slot(optional_model(*params), first@, 0),
            slot(optional_model(*params), second@, 1),
            r,
        ),
{
    match positional(params, 2) {
        Err(e) => Err(e),
        Ok(values) => read_both::<A, B>(
            &values,
            first,
            position_of(params, first, 0),
            second,
            position_of(params, second, 1),
        ),
    }
}

/// Decodes the member of an object that stands under `name`; `null` is
/// decoded where the object has no such member.
pub fn named_one<A: DeserializeOwned>(params: &Option<Json>, name: &str) -> (r: Result<(A,), RpcError>)
    ensures
        read_one(
            named_model(optional_model(*params), seq![name@]),
            slot(optional_model(*params), name@, 0),
            r,
        ),
{
    let names = [name];
    assert(name_models(names@) =~= seq![name@]);
    match named(params, &names) {
        Err(e) => Err(e),
        Ok(values) => read_first::<A>(&values, name, position_of(params, name, 0)),
    }
}

/// Decodes the two members of an object that stand under `first` and
/// `second`, in that order; `null` is decoded for a member that is missing.
pub fn named_two<A: DeserializeOwned, B: DeserializeOwned>(
    params: &Option<Json>,
    first: &str,
    second: &str,
) -> (r: Result<(A, B), RpcError>)
    ensures
        read_two(
            named_model(optional_model(*params), seq![first@, second@]),
            slot(optional_model(*params), first@, 0),
            slot(optional_model(*params), second@, 1),
            r,
        ),
{
    let names = [first, second];
    assert(name_models(names@) =~= seq![first@, second@]);
    match named(params, &names) {
        Err(e) => Err(e),
        Ok(values) => read_both::<A, B>(
            &values,
            first,
            position_of(params, first, 0),
            second,
            position_of(params, second, 1),
        ),
    }
}

/// Decodes one parameter declared under `name`, from an array or from an
/// object.
pub fn decide_one<A: DeserializeOwned>(params: &Option<Json>, name: &str) -> (r: Result<(A,), RpcError>)
    ensures
        read_one(
            decide_model(optional_model(*params), seq![name@]),
            slot(optional_model(*params), name@, 0),
            r,
        ),
{
    let names = [name];
    assert(name_models(names@) =~= seq![name@]);
    match decide(params, &names) {
        Err(e) => Err(e),
        Ok(values) => read_first::<A>(&values, name, position_of(params, name, 0)),
    }
}

/// Decodes two parameters declared under `first` and `second`, from an
/// array or from an object.
pub fn decide_two<A: DeserializeOwned, B: DeserializeOwned>(
    params: &Option<Json>,
    first: &str,
    second: &str,
) -> (r: Result<(A, B), RpcError>)
    ensures
        read_two(
            decide_model(optional_model(*params), seq![first@, second@]),
            slot(optional_model(*params), first@, 0),
            slot(optional_model(*params), second@, 1),
            r,
        ),
{
    let names = [first, second];
    assert(name_models(names@) =~= seq![first@, second@]);
    match decide(params, &names) {
        Err(e) => Err(e),
        Ok(values) => read_both::<A, B>(
            &values,
            first,
            position_of(params, first, 0),
            second,
            position_of(params, second, 1),
        ),
    }
}

/// What a direct attempt to decode the parameters as a whole yields: the
/// value where the attempt was made and went well, and nothing otherwise.
/// A failure of the attempt is dropped, not reported.
pub fn accept_direct<T>(attempt: Option<Result<T, String>>) -> (r: Option<T>)
    ensures
        r == match attempt {
            Some(Ok(value)) => Some(value),
            _ => None::<T>,
        },
{
    match attempt {
        Some(Ok(value)) => Some(value),
        _ => None,
    }
}

/// What the reading of the one parameter of a method owes. Without
/// parameters the result is the refusal of `decide_one`. Else the
/// parameters as a whole are handed to the decoder first. Where they fit,
/// the result is that value. Where they do not, that failure is dropped and
/// the result is what `decide_one` owes.
pub open spec fn read_bare_or_one<A: DeserializeOwned>(
    params: Option<Json>,
    name: Seq<char>,
    r: Result<(A,), RpcError>,
) -> bool {
    let second_reading = read_one(
        decide_model(optional_model(params), seq![name]),
        slot(optional_model(params), name, 0),
        r,
    );
    match params {
        None => second_reading,
        Some(whole) => exists|attempt: Result<A, String>|
            {
                &&& #[trigger] decoded_as(whole, attempt)
                &&& match attempt {
                    Ok(value) => r == Ok::<(A,), RpcError>((value,)),
                    Err(_) => second_reading,
                }
            },
    }
}

/// Decodes the one parameter of a method. The parameters as a whole are
/// tried first, for a caller that sends the value bare. Where that fails,
/// the parameter is read from an array or from an object as `decide_one`
/// reads it, and the error is the one of that second reading.
pub fn single_param<A: DeserializeOwned>(params: &Option<Json>, name: &str) -> (r: Result<(A,), RpcError>)
    ensures
        read_bare_or_one(*params, name@, r),
{
    let attempt = match params {
        Some(whole) => Some(decode_as::<A>(whole)),
        None => None,
    };
    let ghost tried = attempt;
    let r = match accept_direct(attempt) {
        Some(value) => Ok((value,)),
        None => decide_one::<A>(params, name),
    };
    assert(*params matches Some(whole) ==> decoded_as(whole, tried->Some_0));
    r
}

} // verus!
