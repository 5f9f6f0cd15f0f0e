use vstd::prelude::*;
use vstd::string::StringExecFns;

verus! {

/// A JSON number. Integers are held as integers; any other number is held
/// as the text of its literal.
///
/// A number that was read from the wire holds a negative integer in `Neg`
/// and a literal of JSON in `Real`. A number that a program makes need not;
/// on the wire an integer in `Neg` that is not negative is the same integer,
/// and a text in `Real` that is no literal of JSON is `null`.
#[derive(Debug, PartialEq)]
pub enum Number {
    /// A non-negative integer.
    Pos(u64),
    /// A negative integer.
    Neg(i64),
    /// A number with a fraction or an exponent, as its literal.
    Real(String),
}

/// The mathematical model of a JSON number.
pub enum NumberModel {
    Pos(u64),
    Neg(i64),
    Real(Seq<char>),
}

impl View for Number {
    type V = NumberModel;

    open spec fn view(&self) -> NumberModel {
        match self {
            Number::Pos(n) => NumberModel::Pos(*n),
            Number::Neg(n) => NumberModel::Neg(*n),
            Number::Real(text) => NumberModel::Real(text@),
        }
    }
}

impl Clone for Number {
    fn clone(&self) -> (r: Number)
        ensures
            r@ == self@,
    {
        match self {
            Number::Pos(n) => Number::Pos(*n),
            Number::Neg(n) => Number::Neg(*n),
            Number::Real(text) => Number::Real(text.clone()),
        }
    }
}

/// A JSON value.
///
/// An object keeps its members in the order in which they were given. Where
/// a name occurs twice, the last member of that name is the one that counts.
#[derive(Debug, PartialEq)]
pub enum Json {
    Null,
    Bool(bool),
    Number(Number),
    Str(String),
    Array(Vec<Json>),
    Object(Vec<(String, Json)>),
}

/// The mathematical model of a JSON value.
pub enum JsonModel {
    Null,
    Bool(bool),
    Number(NumberModel),
    Str(Seq<char>),
    Array(Seq<JsonModel>),
    Object(Seq<(Seq<char>, JsonModel)>),
}

impl View for Json {
    type V = JsonModel;

    open spec fn view(&self) -> JsonModel
        decreases self,
    {
        match self {
            Json::Null => JsonModel::Null,
            Json::Bool(b) => JsonModel::Bool(*b),
            Json::Number(n) => JsonModel::Number(n@),
            Json::Str(s) => JsonModel::Str(s@),
            Json::Array(items) => JsonModel::Array(
                Seq::new(
                    items@.len(),
                    |i: int|
                        if 0 <= i < items@.len() {
                            items@[i].view()
                        } else {
                            JsonModel::Null
                        },
                ),
            ),
            Json::Object(entries) => JsonModel::Object(
                Seq::new(
                    entries@.len(),
                    |i: int|
                        if 0 <= i < entries@.len() {
                            (entries@[i].0@, entries@[i].1.view())
                        } else {
                            (Seq::empty(), JsonModel::Null)
                        },
                ),
            ),
        }
    }
}

impl Clone for Json {
    #[verifier::loop_isolation(false)]
    fn clone(&self) -> (r: Json)
        ensures
            r@ == self@,
        decreases self,
    {
        match self {
            Json::Null => Json::Null,
            Json::Bool(b) => Json::Bool(*b),
            Json::Number(n) => Json::Number(n.clone()),
            Json::Str(s) => Json::Str(s.clone()),
            Json::Array(items) => {
                let mut out: Vec<Json> = Vec::new();
                let mut i: usize = 0;
                while i < items.len()
                    invariant
                        i <= items.len(),
                        out.len() == i,
                        forall|k: int| 0 <= k < i ==> out@[k]@ == items@[k]@,
                    decreases items.len() - i,
                {
                    let c = items[i].clone();
                    out.push(c);
                    i += 1;
                }
                let r = Json::Array(out);
                assert(r@->Array_0 =~= self@->Array_0);
                r
            },
            Json::Object(entries) => {
                let mut out: Vec<(String, Json)> = Vec::new();
                let mut i: usize = 0;
                while i < entries.len()
                    invariant
                        i <= entries.len(),
                        out.len() == i,
                        forall|k: int|
                            0 <= k < i ==> out@[k].0@ == entries@[k].0@ && out@[k].1@
                                == entries@[k].1@,
                    decreases entries.len() - i,
                {
                    let c = entries[i].1.clone();
                    out.push((entries[i].0.clone(), c));
                    i += 1;
                }
                let r = Json::Object(out);
                assert(r@->Object_0 =~= self@->Object_0);
                r
            },
        }
    }
}

/// The models of the values of a sequence, in order.
pub open spec fn models(items: Seq<Json>) -> Seq<JsonModel> {
    Seq::new(items.len(), |i: int| items[i]@)
}

/// The models of the members of an object, in order.
pub open spec fn member_models(entries: Seq<(String, Json)>) -> Seq<(Seq<char>, JsonModel)> {
    Seq::new(entries.len(), |i: int| (entries[i].0@, entries[i].1@))
}

/// The value that an object holds under `name`: that of the last member of
/// that name, if there is one.
pub open spec fn member(entries: Seq<(Seq<char>, JsonModel)>, name: Seq<char>) -> Option<JsonModel>
    decreases entries.len(),
{
    if entries.len() == 0 {
        None
    } else if entries.last().0 == name {
        Some(entries.last().1)
    } else {
        member(entries.drop_last(), name)
    }
}

/// An array's model is made of the models of its items.
pub proof fn lemma_array_model(items: Vec<Json>)
    ensures
        Json::Array(items)@ == JsonModel::Array(models(items@)),
{
    reveal_with_fuel(<Json as View>::view, 2);
    assert(Json::Array(items)@->Array_0 =~= models(items@));
}

/// An object's model is made of the models of its members.
pub proof fn lemma_object_model(entries: Vec<(String, Json)>)
    ensures
        Json::Object(entries)@ == JsonModel::Object(member_models(entries@)),
{
    reveal_with_fuel(<Json as View>::view, 2);
    assert(Json::Object(entries)@->Object_0 =~= member_models(entries@));
}

/// Deep copies of the values of a vector, in order.
pub fn clone_items(items: &Vec<Json>) -> (r: Vec<Json>)
    ensures
        models(r@) == models(items@),
{
    let mut out: Vec<Json> = Vec::new();
    let mut i: usize = 0;
    while i < items.len()
        invariant
            i <= items.len(),
            out.len() == i,
            forall|k: int| 0 <= k < i ==> out@[k]@ == items@[k]@,
        decreases items.len() - i,
    {
        out.push(items[i].clone());
        i += 1;
    }
    assert(models(out@) =~= models(items@));
    out
}

/// The value that the members hold under `name`, if any: that of the last
/// member of that name.
pub fn lookup<'a>(entries: &'a Vec<(String, Json)>, name: &str) -> (r: Option<&'a Json>)
    ensures
        match r {
            Some(value) => member(member_models(entries@), name@) == Some(value@),
            None => member(member_models(entries@), name@) is None,
        },
{
    let key = String::from_str(name);
    let ghost all = member_models(entries@);
    let mut i: usize = entries.len();
    assert(all.subrange(0, i as int) =~= all);
    while i > 0
        invariant
            i <= entries.len(),
            all == member_models(entries@),
            key@ == name@,
            member(all, name@) == member(all.subrange(0, i as int), name@),
        decreases i,
    {
        let ghost prefix = all.subrange(0, i as int);
        assert(prefix.drop_last() =~= all.subrange(0, i - 1));
        assert(prefix.last() == all[i - 1]);
        i -= 1;
        if entries[i].0 == key {
            return Some(&entries[i].1);
        }
    }
    None
}

/// The model of a value that may be absent.
pub open spec fn optional_model(value: Option<Json>) -> Option<JsonModel> {
    match value {
        Some(json) => Some(json@),
        None => None,
    }
}

/// A deep copy of a value that may be absent.
pub fn clone_optional(value: &Option<Json>) -> (r: Option<Json>)
    ensures
        optional_model(r) == optional_model(*value),
{
    match value {
        Some(json) => Some(json.clone()),
        None => None,
    }
}

} // verus!
