use jsonrpc_server::error::RpcError;
use jsonrpc_server::json::{Json, Number};
use jsonrpc_server::params;
use jsonrpc_server::params::{expect_no_params, single, typed};

fn text(s: &str) -> Json {
    Json::Str(s.to_owned())
}

fn num(n: u64) -> Json {
    Json::Number(Number::Pos(n))
}

fn array(items: Vec<Json>) -> Json {
    Json::Array(items)
}

fn object(members: Vec<(&str, Json)>) -> Json {
    Json::Object(members.into_iter().map(|(k, v)| (k.to_owned(), v)).collect())
}

fn detail(error: &RpcError) -> String {
    match &error.data {
        Some(Json::Str(s)) => s.clone(),
        other => panic!("no text in the error's data: {:?}", other),
    }
}

#[derive(Debug, Eq, PartialEq)]
struct TestStruct {
    x: i32,
}

struct TestStructVisitor;

impl<'de> serde::de::Visitor<'de> for TestStructVisitor {
    type Value = TestStruct;

    fn expecting(&self, f: &mut std::fmt::Formatter) -> std::fmt::Result {
        f.write_str("struct TestStruct")
    }

    fn visit_map<A: serde::de::MapAccess<'de>>(self, mut map: A) -> Result<TestStruct, A::Error> {
        let mut x: Option<i32> = None;
        while let Some(key) = map.next_key::<String>()? {
            if key == "x" {
                x = Some(map.next_value()?);
            } else {
                let _: serde::de::IgnoredAny = map.next_value()?;
            }
        }
        match x {
            Some(x) => Ok(TestStruct { x }),
            None => Err(serde::de::Error::missing_field("x")),
        }
    }
}

impl<'de> serde::Deserialize<'de> for TestStruct {
    fn deserialize<D: serde::Deserializer<'de>>(deserializer: D) -> Result<Self, D::Error> {
        deserializer.deserialize_struct("TestStruct", &["x"], TestStructVisitor)
    }
}

/// Test the extractor when we expect no parameters.
#[test]
fn params_macro_none() {
    // These are legal no-params, at least for us
    expect_no_params(&None).unwrap();
    expect_no_params(&Some(Json::Null)).unwrap();
    expect_no_params(&Some(Json::Array(Vec::new()))).unwrap();
    expect_no_params(&Some(Json::Object(Vec::new()))).unwrap();
    // Some illegal values
    expect_no_params(&Some(Json::Bool(true))).unwrap_err();
    expect_no_params(&Some(array(vec![num(42), text("hello")]))).unwrap_err();
    expect_no_params(&Some(object(vec![("hello", num(42))]))).unwrap_err();
    expect_no_params(&Some(num(42))).unwrap_err();
    expect_no_params(&Some(text("hello"))).unwrap_err();
}

/// A guard object that panics when dropped unless it has been disarmed first.
///
/// We use it to check that a test ran to its end.
struct PanicGuard(bool);

impl PanicGuard {
    /// A constructor. Creates an armed guard.
    fn new() -> Self {
        PanicGuard(true)
    }
    /// Disarm the guard: it won't panic when dropped.
    fn disarm(&mut self) {
        self.0 = false;
    }
}

impl Drop for PanicGuard {
    fn drop(&mut self) {
        if self.0 {
            panic!("PanicGuard dropped without being disarmed");
        }
    }
}

/// Test the panic guard itself
#[test]
#[should_panic]
fn panic_guard() {
    PanicGuard::new();
}

/// Test the single-value decoding.
#[test]
fn single_param() {
    let mut guard = PanicGuard::new();
    // A valid conversion
    // Make sure the return type fits
    let result: Result<bool, RpcError> = single::<bool>(&Json::Bool(true));
    assert!(result.unwrap());
    // Some invalid conversions
    single::<bool>(&Json::Null).unwrap_err();
    single::<bool>(&Json::Array(Vec::new())).unwrap_err();
    guard.disarm();
}

fn bool_str_positional(value: &Option<Json>) -> Result<(bool, String), RpcError> {
    let (b, s) = params::positional_two::<bool, String>(value, "b", "s")?;
    Ok((b, s))
}

fn single_positional(value: &Option<Json>) -> Result<Vec<String>, RpcError> {
    let (r,) = params::positional_one::<Vec<String>>(value, "arr")?;
    Ok(r)
}

/// Test decoding positional arguments.
#[test]
fn positional() {
    // Some that don't match
    bool_str_positional(&None).unwrap_err();
    bool_str_positional(&Some(Json::Null)).unwrap_err();
    bool_str_positional(&Some(Json::Bool(true))).unwrap_err();
    bool_str_positional(&Some(object(vec![("b", Json::Bool(true)), ("s", text("hello"))])))
        .unwrap_err();
    bool_str_positional(&Some(array(vec![Json::Bool(true)]))).unwrap_err();
    bool_str_positional(&Some(array(vec![Json::Bool(true), text("hello"), Json::Bool(false)])))
        .unwrap_err();
    bool_str_positional(&Some(array(vec![Json::Bool(true), Json::Bool(true)]))).unwrap_err();
    // This one should be fine
    assert_eq!(
        (true, "hello".to_owned()),
        bool_str_positional(&Some(array(vec![Json::Bool(true), text("hello")]))).unwrap()
    );

    single_positional(&None).unwrap_err();
    // We need two nested arrays
    single_positional(&Some(array(vec![text("Hello")]))).unwrap_err();
    assert!(single_positional(&Some(array(vec![array(vec![])]))).unwrap().is_empty());
    assert_eq!(
        vec!["hello", "world"],
        single_positional(&Some(array(vec![array(vec![text("hello"), text("world")])]))).unwrap()
    );
}

fn bool_str_named(value: &Option<Json>) -> Result<(bool, String), RpcError> {
    let (b, s) = params::named_two::<bool, String>(value, "b", "s")?;
    Ok((b, s))
}

fn single_named(value: &Option<Json>) -> Result<TestStruct, RpcError> {
    let (ts,) = params::named_one::<TestStruct>(value, "ts")?;
    Ok(ts)
}

fn optional_named(value: &Option<Json>) -> Result<Option<u32>, RpcError> {
    let (ov,) = params::named_one::<Option<u32>>(value, "ov")?;
    Ok(ov)
}

/// Test decoding named arguments
#[test]
fn named() {
    bool_str_named(&None).unwrap_err();
    bool_str_named(&Some(Json::Null)).unwrap_err();
    bool_str_named(&Some(Json::Bool(true))).unwrap_err();
    bool_str_named(&Some(array(vec![Json::Bool(true), text("hello")]))).unwrap_err();
    bool_str_named(&Some(object(vec![("b", Json::Bool(true)), ("s", num(42))]))).unwrap_err();
    bool_str_named(&Some(object(vec![("s", text("hello"))]))).unwrap_err();
    assert_eq!(
        (true, "hello".to_owned()),
        bool_str_named(&Some(object(vec![("b", Json::Bool(true)), ("s", text("hello"))]))).unwrap()
    );
    assert_eq!(
        (true, "hello".to_owned()),
        bool_str_named(&Some(object(vec![
            ("b", Json::Bool(true)),
            ("s", text("hello")),
            ("x", num(42))
        ])))
        .unwrap()
    );

    single_named(&None).unwrap_err();
    single_named(&Some(object(vec![("ts", num(42))]))).unwrap_err();
    single_named(&Some(object(vec![("ts", object(vec![("x", num(42))]))]))).unwrap();

    optional_named(&None).unwrap_err();
    optional_named(&Some(array(vec![]))).unwrap_err();
    assert_eq!(Some(42), optional_named(&Some(object(vec![("ov", num(42))]))).unwrap());
    assert_eq!(None, optional_named(&Some(object(vec![]))).unwrap());
}

fn bool_str(value: &Option<Json>) -> Result<(bool, String), RpcError> {
    let (b, s) = params::decide_two::<bool, String>(value, "b", "s")?;
    Ok((b, s))
}

/// Test decoding parameters when it decides itself how.
#[test]
fn decide() {
    bool_str(&None).unwrap_err();
    bool_str(&Some(Json::Null)).unwrap_err();
    bool_str(&Some(Json::Bool(true))).unwrap_err();
    assert_eq!(
        (true, "hello".to_owned()),
        bool_str_named(&Some(object(vec![("b", Json::Bool(true)), ("s", text("hello"))]))).unwrap()
    );
    assert_eq!(
        (true, "hello".to_owned()),
        bool_str_positional(&Some(array(vec![Json::Bool(true), text("hello")]))).unwrap()
    );
}

fn decode_test_struct(value: &Option<Json>) -> Result<TestStruct, RpcError> {
    let (ts,) = params::single_param::<TestStruct>(value, "ts")?;
    Ok(ts)
}

/// Similar to `decide`, but with a single parameter, which can also arrive bare.
#[test]
fn decide_single() {
    decode_test_struct(&None).unwrap_err();
    decode_test_struct(&Some(Json::Null)).unwrap_err();
    decode_test_struct(&Some(Json::Bool(true))).unwrap_err();

    // Encoded as an array
    assert_eq!(
        TestStruct { x: 42 },
        decode_test_struct(&Some(array(vec![object(vec![("x", num(42))])]))).unwrap()
    );
    // Encoded as an object
    assert_eq!(
        TestStruct { x: 42 },
        decode_test_struct(&Some(object(vec![("ts", object(vec![("x", num(42))]))]))).unwrap()
    );
    // Encoded directly as the parameters structure
    assert_eq!(
        TestStruct { x: 42 },
        decode_test_struct(&Some(object(vec![("x", num(42))]))).unwrap()
    );
}

#[test]
fn decide_reads_both_shapes() {
    assert_eq!(
        (true, "hello".to_owned()),
        bool_str(&Some(object(vec![("b", Json::Bool(true)), ("s", text("hello"))]))).unwrap()
    );
    assert_eq!(
        (true, "hello".to_owned()),
        bool_str(&Some(array(vec![Json::Bool(true), text("hello")]))).unwrap()
    );
    let values = params::decide(&Some(array(vec![num(1), num(2)])), &["a", "b"]).unwrap();
    assert_eq!(values, vec![num(1), num(2)]);
    let values = params::decide(&Some(object(vec![("b", num(2))])), &["a", "b"]).unwrap();
    assert_eq!(values, vec![Json::Null, num(2)]);
}

#[test]
fn shape_errors_carry_their_text() {
    let e = expect_no_params(&Some(Json::Bool(true))).unwrap_err();
    assert_eq!(e.code, -32602);
    assert_eq!(e.message, "Invalid params");
    assert_eq!(detail(&e), "Expected no params");

    assert_eq!(detail(&params::positional(&None, 2).unwrap_err()), "Expected parameters");
    assert_eq!(
        detail(&params::positional(&Some(Json::Null), 2).unwrap_err()),
        "Expected an array as parameters"
    );
    assert_eq!(
        detail(&params::positional(&Some(array(vec![Json::Bool(true)])), 2).unwrap_err()),
        "Wrong number of parameters: expected: 2, got: 1"
    );
    let many: Vec<Json> = (0..123).map(num).collect();
    assert_eq!(
        detail(&params::positional(&Some(array(many)), 40).unwrap_err()),
        format!("Wrong number of parameters: expected: {}, got: {}", 40, 123)
    );
    assert_eq!(detail(&params::named(&None, &["a"]).unwrap_err()), "Expected parameters");
    assert_eq!(
        detail(&params::named(&Some(array(vec![])), &["a"]).unwrap_err()),
        "Expected an object as parameters"
    );
    assert_eq!(detail(&params::decide(&None, &["a"]).unwrap_err()), "Expected parameters");
    assert_eq!(
        detail(&params::decide(&Some(num(3)), &["a"]).unwrap_err()),
        "Expected an object or an array as parameters"
    );
}

#[test]
fn named_takes_the_last_member_of_a_name() {
    let given = Some(object(vec![("a", num(1)), ("b", num(7)), ("a", num(2))]));
    assert_eq!(params::named(&given, &["a", "b", "c"]).unwrap(), vec![num(2), num(7), Json::Null]);
    let (a,) = params::named_one::<u32>(&given, "a").unwrap();
    assert_eq!(a, 2);
}

#[test]
fn a_value_of_the_wrong_type_is_reported() {
    let e = single::<bool>(&num(3)).unwrap_err();
    assert_eq!(e.code, -32602);
    assert!(detail(&e).starts_with("Incompatible type: "));
    assert!(detail(&e).len() > "Incompatible type: ".len());

    let e = typed::<bool>(Err("no good".to_owned())).unwrap_err();
    assert_eq!(e, RpcError::invalid_params(Some("Incompatible type: no good".to_owned())));
    assert_eq!(typed::<bool>(Ok(true)), Ok(true));

    // the first value that does not fit is the one reported
    let e = params::positional_two::<bool, bool>(&Some(array(vec![num(1), text("x")])), "a", "b")
        .unwrap_err();
    assert!(detail(&e).contains("integer"), "{}", detail(&e));
    assert!(detail(&e).starts_with("Incompatible type of parameter a at position 0: "));
}

/// The reason that the decoder gives for a value that is no `T`.
fn reason<T: serde::de::DeserializeOwned + std::fmt::Debug>(value: &Json) -> String {
    let e = single::<T>(value).unwrap_err();
    detail(&e)["Incompatible type: ".len()..].to_owned()
}

#[test]
fn a_parameter_that_does_not_fit_is_named_with_its_position() {
    let e = bool_str_positional(&Some(array(vec![Json::Bool(true), Json::Bool(true)])))
        .unwrap_err();
    assert_eq!(e.code, -32602);
    assert_eq!(e.message, "Invalid params");
    assert_eq!(
        detail(&e),
        format!(
            "Incompatible type of parameter s at position 1: {}",
            reason::<String>(&Json::Bool(true))
        )
    );
    let e = bool_str_positional(&Some(array(vec![num(3), num(4)]))).unwrap_err();
    assert_eq!(
        detail(&e),
        format!("Incompatible type of parameter b at position 0: {}", reason::<bool>(&num(3)))
    );
    let e = single_positional(&Some(array(vec![text("Hello")]))).unwrap_err();
    assert_eq!(
        detail(&e),
        format!(
            "Incompatible type of parameter arr at position 0: {}",
            reason::<Vec<String>>(&text("Hello"))
        )
    );
    // by name there is no position
    let e = bool_str_named(&Some(object(vec![("b", Json::Bool(true)), ("s", num(42))])))
        .unwrap_err();
    assert_eq!(
        detail(&e),
        format!("Incompatible type of parameter s: {}", reason::<String>(&num(42)))
    );
    // where it is decided by what arrived, an array gives positions and an object none
    let e = bool_str(&Some(array(vec![Json::Bool(true), num(1)]))).unwrap_err();
    assert_eq!(
        detail(&e),
        format!("Incompatible type of parameter s at position 1: {}", reason::<String>(&num(1)))
    );
    let e = bool_str(&Some(object(vec![("b", num(1)), ("s", text("x"))]))).unwrap_err();
    assert_eq!(
        detail(&e),
        format!("Incompatible type of parameter b: {}", reason::<bool>(&num(1)))
    );
}

#[test]
fn the_outcome_of_one_parameter_is_handed_on_or_named() {
    assert_eq!(params::typed_at::<bool>(Ok(true), "b", Some(0)), Ok(true));
    assert_eq!(params::typed_at::<bool>(Ok(false), "b", None), Ok(false));
    assert_eq!(
        params::typed_at::<bool>(Err("no good".to_owned()), "s", Some(1)),
        Err(RpcError::invalid_params(Some(
            "Incompatible type of parameter s at position 1: no good".to_owned()
        )))
    );
    assert_eq!(
        params::typed_at::<bool>(Err("no good".to_owned()), "s", Some(12)),
        Err(RpcError::invalid_params(Some(
            "Incompatible type of parameter s at position 12: no good".to_owned()
        )))
    );
    assert_eq!(
        params::typed_at::<bool>(Err("no good".to_owned()), "s", None),
        Err(RpcError::invalid_params(Some("Incompatible type of parameter s: no good".to_owned())))
    );
}

#[test]
fn a_member_that_is_missing_is_decoded_as_null() {
    // an optional parameter takes the null
    assert_eq!(None, optional_named(&Some(object(vec![]))).unwrap());
    assert_eq!(None, optional_named(&Some(object(vec![("other", num(1))]))).unwrap());
    // a required one does not
    let e = single_named(&Some(object(vec![]))).unwrap_err();
    assert_eq!(
        detail(&e),
        format!("Incompatible type of parameter ts: {}", reason::<TestStruct>(&Json::Null))
    );
    let e = bool_str_named(&Some(object(vec![("b", Json::Bool(true))]))).unwrap_err();
    assert_eq!(
        detail(&e),
        format!("Incompatible type of parameter s: {}", reason::<String>(&Json::Null))
    );
}

#[test]
fn values_are_bound_in_the_order_of_their_declaration() {
    // by position: element i is parameter i
    let (a, b) = params::positional_two::<u8, u8>(&Some(array(vec![num(1), num(2)])), "a", "b")
        .unwrap();
    assert_eq!((a, b), (1, 2));
    // by name: the order of the members does not count, members of other names are left aside
    let given = Some(object(vec![("b", num(2)), ("x", num(9)), ("a", num(1))]));
    assert_eq!(params::named_two::<u8, u8>(&given, "a", "b").unwrap(), (1, 2));
    assert_eq!(params::named_two::<u8, u8>(&given, "b", "a").unwrap(), (2, 1));
    assert_eq!(params::decide_two::<u8, u8>(&given, "a", "b").unwrap(), (1, 2));
    assert_eq!(params::decide_one::<u8>(&given, "b").unwrap(), (2,));
    assert_eq!(params::decide_one::<u8>(&Some(array(vec![num(7)])), "b").unwrap(), (7,));
    // the second value is not looked at where the first does not fit
    let e = params::positional_two::<u8, u8>(&Some(array(vec![text("x"), text("y")])), "a", "b")
        .unwrap_err();
    assert!(detail(&e).starts_with("Incompatible type of parameter a at position 0: "));
}

#[test]
fn the_bare_value_is_tried_before_the_array_and_the_object() {
    // an array is itself the one parameter where it decodes as such
    let (whole,) =
        params::single_param::<Vec<u8>>(&Some(array(vec![num(1), num(2)])), "list").unwrap();
    assert_eq!(whole, vec![1, 2]);
    // and the list of parameters where it does not
    let (one,) = params::single_param::<u8>(&Some(array(vec![num(1)])), "n").unwrap();
    assert_eq!(one, 1);
    let (bare,) = params::single_param::<u8>(&Some(num(5)), "n").unwrap();
    assert_eq!(bare, 5);
    let (named,) = params::single_param::<u8>(&Some(object(vec![("n", num(6))])), "n").unwrap();
    assert_eq!(named, 6);
    // the error is that of the second reading
    let e = params::single_param::<u8>(&Some(array(vec![text("x")])), "n").unwrap_err();
    assert_eq!(
        detail(&e),
        format!("Incompatible type of parameter n at position 0: {}", reason::<u8>(&text("x")))
    );
    let e = params::single_param::<u8>(&Some(array(vec![num(1), num(2)])), "n").unwrap_err();
    assert_eq!(detail(&e), "Wrong number of parameters: expected: 1, got: 2");
}

#[test]
fn typed_decoding_reads_numbers_and_nested_values() {
    assert_eq!(single::<i64>(&Json::Number(Number::Neg(-5))).unwrap(), -5);
    assert_eq!(single::<u64>(&num(u64::MAX)).unwrap(), u64::MAX);
    assert_eq!(single::<f64>(&Json::Number(Number::Real("1.5".to_owned()))).unwrap(), 1.5);
    assert_eq!(single::<String>(&text("hello")).unwrap(), "hello");
    assert_eq!(
        single::<Vec<Option<u8>>>(&array(vec![num(1), Json::Null])).unwrap(),
        vec![Some(1), None]
    );
    assert_eq!(
        single::<TestStruct>(&object(vec![("x", num(42))])).unwrap(),
        TestStruct { x: 42 }
    );
    // a value handed back unchanged would not be a different type
    single::<String>(&num(1)).unwrap_err();
}

#[test]
fn a_failed_direct_attempt_is_dropped() {
    assert_eq!(params::accept_direct::<u8>(None), None);
    assert_eq!(params::accept_direct::<u8>(Some(Err("bad".to_owned()))), None);
    assert_eq!(params::accept_direct(Some(Ok(3u8))), Some(3));
    // the error is that of the second reading, not of the direct attempt
    let e = decode_test_struct(&Some(Json::Bool(true))).unwrap_err();
    assert_eq!(detail(&e), "Expected an object or an array as parameters");
    let e = decode_test_struct(&None).unwrap_err();
    assert_eq!(detail(&e), "Expected parameters");
}

/// Three parameters, read one by one.
fn three(value: &Option<Json>) -> Result<(bool, String, Option<u8>), RpcError> {
    let values = params::decide(value, &["b", "s", "n"])?;
    let b = params::parameter::<bool>(value, &values[0], "b", 0)?;
    let s = params::parameter::<String>(value, &values[1], "s", 1)?;
    let n = params::parameter::<Option<u8>>(value, &values[2], "n", 2)?;
    Ok((b, s, n))
}

#[test]
fn parameters_of_any_number_are_read_one_by_one() {
    assert_eq!(
        three(&Some(array(vec![Json::Bool(true), text("x"), num(3)]))).unwrap(),
        (true, "x".to_owned(), Some(3))
    );
    assert_eq!(
        three(&Some(object(vec![("s", text("x")), ("b", Json::Bool(false))]))).unwrap(),
        (false, "x".to_owned(), None)
    );
    let e = three(&Some(array(vec![Json::Bool(true), text("x")]))).unwrap_err();
    assert_eq!(detail(&e), "Wrong number of parameters: expected: 3, got: 2");
    let e = three(&Some(array(vec![Json::Bool(true), text("x"), text("y")]))).unwrap_err();
    assert_eq!(
        detail(&e),
        format!(
            "Incompatible type of parameter n at position 2: {}",
            reason::<Option<u8>>(&text("y"))
        )
    );
    let e = three(&Some(object(vec![("b", Json::Bool(true)), ("n", num(1))]))).unwrap_err();
    assert_eq!(
        detail(&e),
        format!("Incompatible type of parameter s: {}", reason::<String>(&Json::Null))
    );
}
