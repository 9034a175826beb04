use funcall::binder::{bind, decode, settle_opaque};
use funcall::descriptor::{Parameter, PrimitiveKind, TypeDescriptor};
use funcall::dispatcher::{call, call_function, call_function_strict, call_strict};
use funcall::encoder::encode;
use funcall::error::{BindError, CallError, DecodeError, Failure, PathStep, RegistrationError};
use funcall::native::Native;
use funcall::payload::CallPayload;
use funcall::registry::{check_parameters, FunctionRegistry, FunctionSpec};
use funcall::signature::{describe_type, same_text, unwrap_from};
use funcall::value::{find_entry, Kind, Number, Value};

type Callable = fn(Vec<Native>) -> Native;

fn integer(i: i64) -> Value {
    Value::Number(Number::Integer(i))
}

fn text(s: &str) -> Value {
    Value::Text(s.to_string())
}

fn name(s: &str) -> String {
    s.to_string()
}

fn prim(kind: PrimitiveKind) -> TypeDescriptor {
    TypeDescriptor::Primitive(kind)
}

fn param(n: &str, position: usize, descriptor: TypeDescriptor) -> Parameter {
    Parameter { name: name(n), position, descriptor }
}

fn as_i32(n: &Native) -> i32 {
    match n {
        Native::Int32(i) => *i,
        other => panic!("not an Int32: {:?}", other),
    }
}

fn add(args: Vec<Native>) -> Native {
    Native::Int32(as_i32(&args[0]) + as_i32(&args[1]))
}

fn max(args: Vec<Native>) -> Native {
    Native::Int32(args.iter().map(as_i32).max().unwrap())
}

fn greet(args: Vec<Native>) -> Native {
    let excited = matches!(args[1], Native::Bool(true));
    let out = match &args[0] {
        Native::Present(inner) => match &**inner {
            Native::Text(n) if excited => format!("Hello, {}!!!", n),
            Native::Text(n) => format!("Hello, {}.", n),
            other => panic!("not a Text: {:?}", other),
        },
        _ => "Hello!".to_string(),
    };
    Native::Text(out)
}

fn sum(args: Vec<Native>) -> Native {
    match &args[0] {
        Native::List(items) => Native::Int32(items.iter().map(as_i32).sum()),
        other => panic!("not a List: {:?}", other),
    }
}

fn describe_user(args: Vec<Native>) -> Native {
    match &args[0] {
        Native::Record(values) => match (&values[0], &values[1]) {
            (Native::Text(n), Native::Int32(age)) => {
                Native::Text(format!("{} is {} years old", n, age))
            }
            other => panic!("not a user: {:?}", other),
        },
        other => panic!("not a Record: {:?}", other),
    }
}

fn user_descriptor() -> TypeDescriptor {
    TypeDescriptor::Record(vec![
        (name("name"), prim(PrimitiveKind::Text)),
        (name("age"), prim(PrimitiveKind::Int32)),
    ])
}

fn demo_registry() -> FunctionRegistry<Callable> {
    let mut registry: FunctionRegistry<Callable> = FunctionRegistry::new();
    let specs: Vec<FunctionSpec<Callable>> = vec![
        FunctionSpec {
            name: name("add"),
            parameters: vec![
                param("a", 0, prim(PrimitiveKind::Int32)),
                param("b", 1, prim(PrimitiveKind::Int32)),
            ],
            return_descriptor: prim(PrimitiveKind::Int32),
            invoke: add,
        },
        FunctionSpec {
            name: name("max"),
            parameters: vec![
                param("a", 0, prim(PrimitiveKind::Int32)),
                param("b", 1, prim(PrimitiveKind::Int32)),
                param("c", 2, prim(PrimitiveKind::Int32)),
            ],
            return_descriptor: prim(PrimitiveKind::Int32),
            invoke: max,
        },
        FunctionSpec {
            name: name("greet"),
            parameters: vec![
                param(
                    "name",
                    0,
                    TypeDescriptor::Optional(Box::new(prim(PrimitiveKind::Text))),
                ),
                param("excited", 1, prim(PrimitiveKind::Bool)),
            ],
            return_descriptor: prim(PrimitiveKind::Text),
            invoke: greet,
        },
        FunctionSpec {
            name: name("sum"),
            parameters: vec![param(
                "numbers",
                0,
                TypeDescriptor::Sequence(Box::new(prim(PrimitiveKind::Int32))),
            )],
            return_descriptor: prim(PrimitiveKind::Int32),
            invoke: sum,
        },
        FunctionSpec {
            name: name("describe_user"),
            parameters: vec![param("user", 0, user_descriptor())],
            return_descriptor: prim(PrimitiveKind::Text),
            invoke: describe_user,
        },
    ];
    for spec in specs {
        assert_eq!(registry.register(spec), Ok(()));
    }
    registry.freeze();
    registry
}

fn mismatch(parameter: &str, path: Vec<PathStep>, expected: Kind, actual: Kind) -> CallError {
    CallError::BindFailed(BindError {
        parameter: name(parameter),
        path,
        failure: Failure::TypeMismatch { expected, actual },
    })
}

fn missing(parameter: &str, path: Vec<PathStep>) -> CallError {
    CallError::BindFailed(BindError {
        parameter: name(parameter),
        path,
        failure: Failure::MissingRequiredArgument,
    })
}

#[test]
fn add_positional() {
    let r = call(&demo_registry(), &name("add"), &CallPayload::Positional(vec![integer(2), integer(3)]));
    assert_eq!(r, Ok(integer(5)));
}

#[test]
fn add_named_in_any_key_order() {
    let payload = CallPayload::Named(vec![(name("b"), integer(3)), (name("a"), integer(2))]);
    assert_eq!(call(&demo_registry(), &name("add"), &payload), Ok(integer(5)));
}

#[test]
fn max_positional() {
    let payload = CallPayload::Positional(vec![integer(1), integer(5), integer(3)]);
    assert_eq!(call(&demo_registry(), &name("max"), &payload), Ok(integer(5)));
}

#[test]
fn greet_named_excited() {
    let payload =
        CallPayload::Named(vec![(name("name"), text("Morris")), (name("excited"), Value::Bool(true))]);
    assert_eq!(call(&demo_registry(), &name("greet"), &payload), Ok(text("Hello, Morris!!!")));
}

#[test]
fn greet_positional_calm() {
    let payload = CallPayload::Positional(vec![text("Morris"), Value::Bool(false)]);
    assert_eq!(call(&demo_registry(), &name("greet"), &payload), Ok(text("Hello, Morris.")));
}

#[test]
fn greet_null_name() {
    let payload =
        CallPayload::Named(vec![(name("name"), Value::Null), (name("excited"), Value::Bool(true))]);
    assert_eq!(call(&demo_registry(), &name("greet"), &payload), Ok(text("Hello!")));
    let payload = CallPayload::Positional(vec![Value::Null, Value::Bool(true)]);
    assert_eq!(call(&demo_registry(), &name("greet"), &payload), Ok(text("Hello!")));
}

#[test]
fn greet_absent_name() {
    let payload = CallPayload::Named(vec![(name("excited"), Value::Bool(true))]);
    assert_eq!(call(&demo_registry(), &name("greet"), &payload), Ok(text("Hello!")));
}

#[test]
fn sum_positional() {
    let payload =
        CallPayload::Positional(vec![Value::Sequence(vec![integer(1), integer(2), integer(3), integer(4)])]);
    assert_eq!(call(&demo_registry(), &name("sum"), &payload), Ok(integer(10)));
}

#[test]
fn sum_of_empty_sequence() {
    let payload = CallPayload::Named(vec![(name("numbers"), Value::Sequence(vec![]))]);
    assert_eq!(call(&demo_registry(), &name("sum"), &payload), Ok(integer(0)));
}

#[test]
fn describe_user_positional_and_named() {
    let user = || Value::Mapping(vec![(name("name"), text("Morris")), (name("age"), integer(30))]);
    let expected = Ok(text("Morris is 30 years old"));
    let registry = demo_registry();
    assert_eq!(
        call(&registry, &name("describe_user"), &CallPayload::Positional(vec![user()])),
        expected
    );
    assert_eq!(
        call(&registry, &name("describe_user"), &CallPayload::Named(vec![(name("user"), user())])),
        expected
    );
}

#[test]
fn unknown_function() {
    let r = call(&demo_registry(), &name("nope"), &CallPayload::Positional(vec![]));
    assert_eq!(r, Err(CallError::UnknownFunction(name("nope"))));
    let empty: FunctionRegistry<Callable> = FunctionRegistry::new();
    let r = call(&empty, &name("add"), &CallPayload::Positional(vec![integer(2), integer(3)]));
    assert_eq!(r, Err(CallError::UnknownFunction(name("add"))));
}

#[test]
fn missing_required_positional_names_the_parameter() {
    let r = call(&demo_registry(), &name("add"), &CallPayload::Positional(vec![integer(2)]));
    assert_eq!(r, Err(missing("b", vec![])));
    let r = call(&demo_registry(), &name("add"), &CallPayload::Positional(vec![]));
    assert_eq!(r, Err(missing("a", vec![])));
}

#[test]
fn missing_required_named_names_the_parameter() {
    let r = call(&demo_registry(), &name("add"), &CallPayload::Named(vec![(name("a"), integer(2))]));
    assert_eq!(r, Err(missing("b", vec![])));
    let r = call(&demo_registry(), &name("greet"), &CallPayload::Named(vec![]));
    assert_eq!(r, Err(missing("excited", vec![])));
}

#[test]
fn null_is_not_absent_for_a_required_parameter() {
    let r = call(&demo_registry(), &name("add"), &CallPayload::Positional(vec![Value::Null, integer(1)]));
    assert_eq!(r, Err(mismatch("a", vec![], Kind::Int32, Kind::Null)));
}

#[test]
fn int32_out_of_range_is_rejected() {
    let registry = demo_registry();
    let r = call(&registry, &name("add"), &CallPayload::Positional(vec![integer(2147483648), integer(0)]));
    assert_eq!(r, Err(mismatch("a", vec![], Kind::Int32, Kind::Number)));
    let r = call(&registry, &name("add"), &CallPayload::Positional(vec![integer(0), integer(-2147483649)]));
    assert_eq!(r, Err(mismatch("b", vec![], Kind::Int32, Kind::Number)));
    let r = call(&registry, &name("max"), &CallPayload::Positional(vec![
        integer(2147483647),
        integer(-2147483648),
        integer(0),
    ]));
    assert_eq!(r, Ok(integer(2147483647)));
}

#[test]
fn int32_rejects_a_real() {
    let real = Value::Number(Number::Real(3.0f64.to_bits()));
    let r = decode(&prim(PrimitiveKind::Int32), Some(&real));
    assert_eq!(
        r,
        Err(DecodeError {
            path: vec![],
            failure: Failure::TypeMismatch { expected: Kind::Int32, actual: Kind::Number },
        })
    );
}

#[test]
fn float64_takes_reals_and_integers() {
    let d = prim(PrimitiveKind::Float64);
    let real = Number::Real(2.5f64.to_bits());
    assert_eq!(decode(&d, Some(&Value::Number(real))), Ok(Native::Float64(real)));
    assert_eq!(decode(&d, Some(&integer(7))), Ok(Native::Float64(Number::Integer(7))));
    assert_eq!(
        decode(&d, Some(&text("7"))),
        Err(DecodeError {
            path: vec![],
            failure: Failure::TypeMismatch { expected: Kind::Number, actual: Kind::Text },
        })
    );
    assert_eq!(encode(&Native::Float64(real), &d), Value::Number(real));
}

#[test]
fn primitive_mismatches() {
    let registry = demo_registry();
    let r = call(&registry, &name("greet"), &CallPayload::Positional(vec![integer(1), Value::Bool(true)]));
    assert_eq!(r, Err(mismatch("name", vec![], Kind::Text, Kind::Number)));
    let r = call(&registry, &name("greet"), &CallPayload::Positional(vec![text("x"), text("yes")]));
    assert_eq!(r, Err(mismatch("excited", vec![], Kind::Bool, Kind::Text)));
    let r = call(&registry, &name("sum"), &CallPayload::Positional(vec![integer(1)]));
    assert_eq!(r, Err(mismatch("numbers", vec![], Kind::Sequence, Kind::Number)));
    let r = call(&registry, &name("describe_user"), &CallPayload::Positional(vec![Value::Sequence(vec![])]));
    assert_eq!(r, Err(mismatch("user", vec![], Kind::Mapping, Kind::Sequence)));
}

#[test]
fn sequence_failure_carries_the_index_of_the_first_bad_item() {
    let payload = CallPayload::Positional(vec![Value::Sequence(vec![
        integer(1),
        text("two"),
        Value::Bool(true),
    ])]);
    let r = call(&demo_registry(), &name("sum"), &payload);
    assert_eq!(r, Err(mismatch("numbers", vec![PathStep::Index(1)], Kind::Int32, Kind::Text)));
}

#[test]
fn record_failure_carries_the_field() {
    let registry = demo_registry();
    let payload = CallPayload::Positional(vec![Value::Mapping(vec![(name("name"), text("Morris"))])]);
    let r = call(&registry, &name("describe_user"), &payload);
    assert_eq!(r, Err(missing("user", vec![PathStep::Field(name("age"))])));
    let payload = CallPayload::Positional(vec![Value::Mapping(vec![
        (name("age"), text("old")),
        (name("name"), text("Morris")),
    ])]);
    let r = call(&registry, &name("describe_user"), &payload);
    assert_eq!(
        r,
        Err(mismatch("user", vec![PathStep::Field(name("age"))], Kind::Int32, Kind::Text))
    );
}

#[test]
fn nested_failure_path_runs_from_the_outside_in() {
    let d = TypeDescriptor::Sequence(Box::new(user_descriptor()));
    let raw = Value::Sequence(vec![
        Value::Mapping(vec![(name("name"), text("a")), (name("age"), integer(1))]),
        Value::Mapping(vec![(name("name"), Value::Null), (name("age"), integer(2))]),
    ]);
    assert_eq!(
        decode(&d, Some(&raw)),
        Err(DecodeError {
            path: vec![PathStep::Index(1), PathStep::Field(name("name"))],
            failure: Failure::TypeMismatch { expected: Kind::Text, actual: Kind::Null },
        })
    );
}

#[test]
fn extra_arguments_are_ignored() {
    let registry = demo_registry();
    let r = call(&registry, &name("add"), &CallPayload::Positional(vec![integer(2), integer(3), integer(99)]));
    assert_eq!(r, Ok(integer(5)));
    let payload =
        CallPayload::Named(vec![(name("z"), text("?")), (name("a"), integer(2)), (name("b"), integer(3))]);
    assert_eq!(call(&registry, &name("add"), &payload), Ok(integer(5)));
}

#[test]
fn positional_and_named_bind_alike() {
    let parameters = vec![
        param("numbers", 0, TypeDescriptor::Sequence(Box::new(prim(PrimitiveKind::Int32)))),
        param("label", 1, TypeDescriptor::Optional(Box::new(prim(PrimitiveKind::Text)))),
        param("user", 2, user_descriptor()),
    ];
    let numbers = || Value::Sequence(vec![integer(4), integer(3)]);
    let user = || Value::Mapping(vec![(name("age"), integer(30)), (name("name"), text("Morris"))]);
    let positional = CallPayload::Positional(vec![numbers(), text("x"), user()]);
    let named = CallPayload::Named(vec![
        (name("user"), user()),
        (name("label"), text("x")),
        (name("numbers"), numbers()),
    ]);
    let expected = vec![
        Native::List(vec![Native::Int32(4), Native::Int32(3)]),
        Native::Present(Box::new(Native::Text(name("x")))),
        Native::Record(vec![Native::Text(name("Morris")), Native::Int32(30)]),
    ];
    assert_eq!(bind(&parameters, &positional), Ok(expected));
    assert_eq!(bind(&parameters, &positional), bind(&parameters, &named));
}

#[test]
fn bind_goes_by_declared_position_not_by_list_order() {
    let parameters =
        vec![param("b", 1, prim(PrimitiveKind::Int32)), param("a", 0, prim(PrimitiveKind::Bool))];
    let payload = CallPayload::Positional(vec![Value::Bool(true), integer(9)]);
    assert_eq!(bind(&parameters, &payload), Ok(vec![Native::Int32(9), Native::Bool(true)]));
}

#[test]
fn bind_reports_the_first_failing_parameter() {
    let parameters =
        vec![param("a", 0, prim(PrimitiveKind::Int32)), param("b", 1, prim(PrimitiveKind::Int32))];
    let payload = CallPayload::Positional(vec![text("x")]);
    assert_eq!(
        bind(&parameters, &payload),
        Err(BindError {
            parameter: name("a"),
            path: vec![],
            failure: Failure::TypeMismatch { expected: Kind::Int32, actual: Kind::Text },
        })
    );
}

#[test]
fn optional_absent_null_and_present() {
    let d = TypeDescriptor::Optional(Box::new(prim(PrimitiveKind::Int32)));
    assert_eq!(decode(&d, None), Ok(Native::Absent));
    assert_eq!(decode(&d, Some(&Value::Null)), Ok(Native::Absent));
    assert_eq!(decode(&d, Some(&integer(4))), Ok(Native::Present(Box::new(Native::Int32(4)))));
    assert_eq!(
        decode(&d, Some(&text("4"))),
        Err(DecodeError {
            path: vec![],
            failure: Failure::TypeMismatch { expected: Kind::Int32, actual: Kind::Text },
        })
    );
}

#[test]
fn sequence_order_is_kept() {
    let d = TypeDescriptor::Sequence(Box::new(prim(PrimitiveKind::Int32)));
    let raw = Value::Sequence(vec![integer(1), integer(2), integer(3), integer(4)]);
    let decoded = decode(&d, Some(&raw)).unwrap();
    assert_eq!(
        decoded,
        Native::List(vec![Native::Int32(1), Native::Int32(2), Native::Int32(3), Native::Int32(4)])
    );
    assert_eq!(sum(vec![decoded]), Native::Int32(1 + 2 + 3 + 4));
    let again = decode(&d, Some(&raw)).unwrap();
    assert_eq!(encode(&again, &d), raw);
}

#[test]
fn record_round_trip() {
    let d = user_descriptor();
    let raw = Value::Mapping(vec![(name("name"), text("Morris")), (name("age"), integer(30))]);
    let decoded = decode(&d, Some(&raw)).unwrap();
    assert_eq!(decoded, Native::Record(vec![Native::Text(name("Morris")), Native::Int32(30)]));
    assert_eq!(encode(&decoded, &d), raw);
    let shuffled = Value::Mapping(vec![
        (name("age"), integer(30)),
        (name("extra"), Value::Null),
        (name("name"), text("Morris")),
    ]);
    let decoded = decode(&d, Some(&shuffled)).unwrap();
    assert_eq!(encode(&decoded, &d), raw);
}

#[test]
fn encode_optional_and_nested() {
    let d = TypeDescriptor::Optional(Box::new(TypeDescriptor::Sequence(Box::new(prim(
        PrimitiveKind::Bool,
    )))));
    assert_eq!(encode(&Native::Absent, &d), Value::Null);
    let present = Native::Present(Box::new(Native::List(vec![Native::Bool(true), Native::Bool(false)])));
    assert_eq!(encode(&present, &d), Value::Sequence(vec![Value::Bool(true), Value::Bool(false)]));
    assert_eq!(encode(&Native::Int32(-7), &prim(PrimitiveKind::Int32)), integer(-7));
    assert_eq!(encode(&Native::Text(name("hi")), &prim(PrimitiveKind::Text)), text("hi"));
}

#[test]
fn encode_of_a_value_that_does_not_conform_is_null() {
    assert_eq!(encode(&Native::Bool(true), &prim(PrimitiveKind::Int32)), Value::Null);
    assert_eq!(encode(&Native::Record(vec![Native::Int32(1)]), &user_descriptor()), Value::Null);
    let d = TypeDescriptor::Sequence(Box::new(prim(PrimitiveKind::Int32)));
    assert_eq!(
        encode(&Native::List(vec![Native::Int32(1), Native::Absent]), &d),
        Value::Sequence(vec![integer(1), Value::Null])
    );
}

#[test]
fn opaque_values_pass_through() {
    let d = TypeDescriptor::Opaque(7);
    let raw = Value::Mapping(vec![(name("k"), Value::Sequence(vec![integer(1), Value::Null]))]);
    let decoded = decode(&d, Some(&raw)).unwrap();
    assert_eq!(decoded, Native::Opaque(7, raw.duplicate()));
    assert_eq!(encode(&decoded, &d), raw);
    assert_eq!(encode(&decoded, &TypeDescriptor::Opaque(8)), Value::Null);
    assert_eq!(
        decode(&d, None),
        Err(DecodeError { path: vec![], failure: Failure::MissingRequiredArgument })
    );
}

#[test]
fn register_refuses_duplicates_and_frozen() {
    let mut registry: FunctionRegistry<Callable> = FunctionRegistry::new();
    let spec = |n: &str, f: Callable| FunctionSpec {
        name: name(n),
        parameters: vec![],
        return_descriptor: prim(PrimitiveKind::Int32),
        invoke: f,
    };
    assert!(!registry.is_frozen());
    assert_eq!(registry.register(spec("f", add)), Ok(()));
    assert_eq!(registry.register(spec("f", max)), Err(RegistrationError::DuplicateName));
    assert_eq!(registry.len(), 1);
    assert_eq!(registry.register(spec("g", max)), Ok(()));
    assert_eq!(registry.len(), 2);
    assert_eq!(registry.position(&name("g")), Some(1));
    registry.freeze();
    assert!(registry.is_frozen());
    assert_eq!(registry.register(spec("h", add)), Err(RegistrationError::Frozen));
    assert_eq!(registry.register(spec("f", add)), Err(RegistrationError::Frozen));
    assert_eq!(registry.len(), 2);
    assert!(registry.lookup(&name("f")).is_some());
    assert_eq!(registry.lookup(&name("g")).unwrap().name, "g");
    assert!(registry.lookup(&name("h")).is_none());
}

#[test]
fn call_function_binds_invokes_and_encodes() {
    let spec: FunctionSpec<Callable> = FunctionSpec {
        name: name("sum"),
        parameters: vec![param(
            "numbers",
            0,
            TypeDescriptor::Sequence(Box::new(prim(PrimitiveKind::Int32))),
        )],
        return_descriptor: prim(PrimitiveKind::Int32),
        invoke: sum,
    };
    let payload = CallPayload::Named(vec![(name("numbers"), Value::Sequence(vec![integer(5), integer(6)]))]);
    assert_eq!(call_function(&spec, &payload), Ok(integer(11)));
    assert_eq!(
        call_function(&spec, &CallPayload::Named(vec![])),
        Err(missing("numbers", vec![]))
    );
}

#[test]
fn mapping_lookup_takes_the_first_entry_of_a_name() {
    let entries = vec![(name("a"), integer(1)), (name("b"), integer(2)), (name("a"), integer(3))];
    assert_eq!(find_entry(&entries, &name("a")), Some(&integer(1)));
    assert_eq!(find_entry(&entries, &name("b")), Some(&integer(2)));
    assert_eq!(find_entry(&entries, &name("c")), None);
}

#[test]
fn value_kind_and_duplicate() {
    let v = Value::Mapping(vec![(name("k"), Value::Sequence(vec![integer(1), text("x"), Value::Null]))]);
    assert_eq!(v.kind(), Kind::Mapping);
    assert_eq!(v.duplicate(), v);
    assert_eq!(Value::Null.kind(), Kind::Null);
    assert!(Value::Null.is_null());
    assert!(!integer(0).is_null());
    assert_eq!(integer(0).kind(), Kind::Number);
    assert_eq!(text("").kind(), Kind::Text);
    assert_eq!(Value::Bool(false).kind(), Kind::Bool);
    assert_eq!(Value::Sequence(vec![]).kind(), Kind::Sequence);
    assert!(prim(PrimitiveKind::Bool) != TypeDescriptor::Opaque(0));
    assert!(TypeDescriptor::Optional(Box::new(prim(PrimitiveKind::Bool))).is_optional());
    assert!(!prim(PrimitiveKind::Bool).is_optional());
}

#[test]
fn same_compares_content_in_order() {
    let a = Value::Mapping(vec![
        (name("k"), Value::Sequence(vec![integer(1), text("x")])),
        (name("m"), Value::Null),
    ]);
    assert!(a.same(&a.duplicate()));
    let reordered = Value::Mapping(vec![
        (name("m"), Value::Null),
        (name("k"), Value::Sequence(vec![integer(1), text("x")])),
    ]);
    assert!(!a.same(&reordered));
    let shorter = Value::Mapping(vec![(name("k"), Value::Sequence(vec![integer(1), text("x")]))]);
    assert!(!a.same(&shorter));
    let other_item = Value::Mapping(vec![
        (name("k"), Value::Sequence(vec![integer(1), text("y")])),
        (name("m"), Value::Null),
    ]);
    assert!(!a.same(&other_item));
    assert!(integer(1).same(&integer(1)));
    assert!(!integer(1).same(&Value::Number(Number::Real(1.0f64.to_bits()))));
    assert!(!integer(1).same(&Value::Bool(true)));
    assert!(Value::Sequence(vec![]).same(&Value::Sequence(vec![])));
    assert!(!Value::Sequence(vec![]).same(&Value::Mapping(vec![])));
}

#[test]
fn parameters_are_checked_for_position_and_name() {
    let good = vec![
        param("a", 0, prim(PrimitiveKind::Int32)),
        param("b", 1, prim(PrimitiveKind::Bool)),
    ];
    assert!(check_parameters(&good));
    assert!(check_parameters(&vec![]));
    let misplaced = vec![
        param("a", 1, prim(PrimitiveKind::Int32)),
        param("b", 0, prim(PrimitiveKind::Bool)),
    ];
    assert!(!check_parameters(&misplaced));
    let twice = vec![
        param("a", 0, prim(PrimitiveKind::Int32)),
        param("b", 1, prim(PrimitiveKind::Bool)),
        param("a", 2, prim(PrimitiveKind::Bool)),
    ];
    assert!(!check_parameters(&twice));
    let registry = demo_registry();
    assert!(registry.lookup(&name("max")).unwrap().is_well_formed());
}

#[test]
fn descriptors_are_checked_for_repeated_fields() {
    assert!(user_descriptor().has_distinct_fields());
    assert!(prim(PrimitiveKind::Text).has_distinct_fields());
    let repeated = TypeDescriptor::Record(vec![
        (name("x"), prim(PrimitiveKind::Int32)),
        (name("y"), prim(PrimitiveKind::Int32)),
        (name("x"), prim(PrimitiveKind::Bool)),
    ]);
    assert!(!repeated.has_distinct_fields());
    let nested = TypeDescriptor::Optional(Box::new(TypeDescriptor::Sequence(Box::new(
        TypeDescriptor::Record(vec![(name("inner"), repeated)]),
    ))));
    assert!(!nested.has_distinct_fields());
    let fine = TypeDescriptor::Record(vec![
        (name("x"), user_descriptor()),
        (name("y"), user_descriptor()),
    ]);
    assert!(fine.has_distinct_fields());
}

#[test]
fn round_trip_through_nested_optionals_and_records() {
    let d = TypeDescriptor::Record(vec![
        (name("who"), user_descriptor()),
        (
            name("tags"),
            TypeDescriptor::Optional(Box::new(TypeDescriptor::Sequence(Box::new(prim(
                PrimitiveKind::Text,
            ))))),
        ),
        (name("score"), prim(PrimitiveKind::Float64)),
    ]);
    let raw = Value::Mapping(vec![
        (name("score"), integer(3)),
        (name("who"), Value::Mapping(vec![(name("age"), integer(1)), (name("name"), text("a"))])),
    ]);
    let native = decode(&d, Some(&raw)).unwrap();
    assert_eq!(
        native,
        Native::Record(vec![
            Native::Record(vec![Native::Text(name("a")), Native::Int32(1)]),
            Native::Absent,
            Native::Float64(Number::Integer(3)),
        ])
    );
    let encoded = encode(&native, &d);
    assert_eq!(
        encoded,
        Value::Mapping(vec![
            (name("who"), Value::Mapping(vec![(name("name"), text("a")), (name("age"), integer(1))])),
            (name("tags"), Value::Null),
            (name("score"), integer(3)),
        ])
    );
    assert_eq!(decode(&d, Some(&encoded)), Ok(native));
}

#[test]
fn strict_call_refuses_further_positional_items() {
    let registry = demo_registry();
    let three = CallPayload::Positional(vec![integer(2), integer(3), integer(99)]);
    assert_eq!(
        call_strict(&registry, &name("add"), &three),
        Err(CallError::ArityExceeded { expected: 2, actual: 3 })
    );
    assert_eq!(call(&registry, &name("add"), &three), Ok(integer(5)));
    let two = CallPayload::Positional(vec![integer(2), integer(3)]);
    assert_eq!(call_strict(&registry, &name("add"), &two), Ok(integer(5)));
    let one = CallPayload::Positional(vec![integer(2)]);
    assert_eq!(call_strict(&registry, &name("add"), &one), Err(missing("b", vec![])));
    let named = CallPayload::Named(vec![
        (name("a"), integer(2)),
        (name("b"), integer(3)),
        (name("c"), integer(4)),
    ]);
    assert_eq!(call_strict(&registry, &name("add"), &named), Ok(integer(5)));
    assert_eq!(
        call_strict(&registry, &name("nope"), &three),
        Err(CallError::UnknownFunction(name("nope")))
    );
    let spec = registry.lookup(&name("sum")).unwrap();
    let payload = CallPayload::Positional(vec![Value::Sequence(vec![]), Value::Null]);
    assert_eq!(
        call_function_strict(spec, &payload),
        Err(CallError::ArityExceeded { expected: 1, actual: 2 })
    );
}

#[test]
fn a_refused_opaque_value_is_a_type_mismatch() {
    let raw = text("not a date");
    assert_eq!(settle_opaque(&raw, Some(Native::Int32(1))), Ok(Native::Int32(1)));
    assert_eq!(
        settle_opaque(&raw, None),
        Err(DecodeError {
            path: vec![],
            failure: Failure::TypeMismatch { expected: Kind::Opaque, actual: Kind::Text },
        })
    );
}

#[test]
fn types_are_described_from_their_text() {
    assert_eq!(describe_type("i32"), prim(PrimitiveKind::Int32));
    assert_eq!(describe_type("f64"), prim(PrimitiveKind::Float64));
    assert_eq!(describe_type("bool"), prim(PrimitiveKind::Bool));
    assert_eq!(describe_type("String"), prim(PrimitiveKind::Text));
    assert_eq!(
        describe_type("Option<String>"),
        TypeDescriptor::Optional(Box::new(prim(PrimitiveKind::Text)))
    );
    assert_eq!(
        describe_type("Vec<i32>"),
        TypeDescriptor::Sequence(Box::new(prim(PrimitiveKind::Int32)))
    );
    assert_eq!(
        describe_type("Vec<Option<f64>>"),
        TypeDescriptor::Sequence(Box::new(TypeDescriptor::Optional(Box::new(prim(
            PrimitiveKind::Float64
        )))))
    );
    assert_eq!(describe_type("User"), TypeDescriptor::Opaque(0));
    assert_eq!(describe_type("u8"), TypeDescriptor::Opaque(0));
    assert_eq!(describe_type(""), TypeDescriptor::Opaque(0));
    assert_eq!(describe_type("Option<"), TypeDescriptor::Opaque(0));
    assert_eq!(describe_type("Vec<i32"), TypeDescriptor::Opaque(0));
    assert_eq!(describe_type("Option <i32>"), TypeDescriptor::Opaque(0));
    assert_eq!(
        describe_type("Option<>"),
        TypeDescriptor::Optional(Box::new(TypeDescriptor::Opaque(0)))
    );
    assert_eq!(
        describe_type("Vec<HashMap<String,i32>>"),
        TypeDescriptor::Sequence(Box::new(TypeDescriptor::Opaque(0)))
    );
}

#[test]
fn texts_are_compared_and_unwrapped_by_characters() {
    assert!(same_text("héllo", "héllo"));
    assert!(!same_text("héllo", "hello"));
    assert!(!same_text("a", "ab"));
    assert!(same_text("", ""));
    assert_eq!(unwrap_from("Vec<é>", "Vec<"), Some("é"));
    assert_eq!(unwrap_from("Vec<", "Vec<"), None);
    assert_eq!(unwrap_from("Vec<>", "Vec<"), Some(""));
    assert_eq!(unwrap_from("Vex<a>", "Vec<"), None);
    assert_eq!(unwrap_from("Vec<a]", "Vec<"), None);
}

#[test]
fn a_described_signature_binds_a_payload() {
    let parameters = vec![
        param("name", 0, describe_type("Option<String>")),
        param("excited", 1, describe_type("bool")),
    ];
    assert!(check_parameters(&parameters));
    let payload = CallPayload::Positional(vec![Value::Null, Value::Bool(true)]);
    assert_eq!(bind(&parameters, &payload), Ok(vec![Native::Absent, Native::Bool(true)]));
}
