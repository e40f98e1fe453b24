use zod_core::error::{ErrorCode, Limit, PathSegment, Received, ValidationError};
use zod_core::number::Number;
use zod_core::schema::{ObjectSchema, Schema};
use zod_core::validate::validate;
use zod_core::value::{Value, ValueKind};

fn num(x: f64) -> Number {
    Number::from_bits(x.to_bits())
}

fn text(s: &str) -> Value {
    Value::String(s.to_string())
}

fn number(x: f64) -> Value {
    Value::Number(num(x))
}

fn object(members: Vec<(&str, Value)>) -> Value {
    Value::Object(members.into_iter().map(|(k, v)| (k.to_string(), v)).collect())
}

fn errors_of(schema: &Schema, value: &Value) -> Vec<ValidationError> {
    match validate(schema, value) {
        Ok(()) => Vec::new(),
        Err(e) => e,
    }
}

#[test]
fn test_fluent_api() {
    let schema = Schema::string().min_length(3).max_length(10).build();
    assert!(validate(&schema, &text("hello")).is_ok());
}

#[test]
fn test_basic_validation() {
    let string_schema = Schema::string().build();
    let number_schema = Schema::number().build();
    let boolean_schema = Schema::Boolean;

    assert!(validate(&string_schema, &text("hello")).is_ok());
    assert!(validate(&number_schema, &number(42.0)).is_ok());
    assert!(validate(&boolean_schema, &Value::Bool(true)).is_ok());

    assert!(validate(&number_schema, &text("not a number")).is_err());
    assert!(validate(&string_schema, &number(123.0)).is_err());
}

#[test]
fn test_object_validation() {
    let schema = Schema::object()
        .property("name", Schema::string().min_length(1).build())
        .property("age", Schema::number().min(num(0.0)).build())
        .required("name")
        .build();

    let valid = object(vec![("name", text("John")), ("age", number(25.0))]);
    assert!(validate(&schema, &valid).is_ok());

    let missing = object(vec![("age", number(25.0))]);
    let result = validate(&schema, &missing);
    assert!(result.is_err());
    assert!(result.unwrap_err()[0].message.contains("name"));

    let invalid = object(vec![("name", text("John")), ("age", text("not a number"))]);
    assert!(validate(&schema, &invalid).is_err());
}

#[test]
fn test_array_validation() {
    let schema = Schema::array()
        .items(Schema::string().min_length(1).build())
        .min_items(1)
        .max_items(5)
        .build();

    assert!(validate(&schema, &Value::Array(vec![text("hello"), text("world")])).is_ok());

    let result = validate(&schema, &Value::Array(vec![]));
    assert!(result.is_err());

    let six = vec![text("a"), text("b"), text("c"), text("d"), text("e"), text("f")];
    let result = validate(&schema, &Value::Array(six));
    assert!(result.is_err());

    let result = validate(&schema, &Value::Array(vec![text("hello"), text("")]));
    assert!(result.is_err());
}

#[test]
fn test_nested_structures() {
    let schema = Schema::array()
        .items(
            Schema::object()
                .property("name", Schema::string().min_length(1).build())
                .property("age", Schema::number().min(num(0.0)).build())
                .required("name")
                .build(),
        )
        .build();

    let valid = Value::Array(vec![
        object(vec![("name", text("John")), ("age", number(25.0))]),
        object(vec![("name", text("Jane")), ("age", number(30.0))]),
    ]);
    assert!(validate(&schema, &valid).is_ok());

    let invalid = Value::Array(vec![
        object(vec![("name", text("John")), ("age", number(25.0))]),
        object(vec![("age", number(30.0))]),
    ]);
    assert!(validate(&schema, &invalid).is_err());
}

#[test]
fn test_multiple_errors() {
    let schema = Schema::object()
        .property("name", Schema::string().min_length(5).build())
        .property("age", Schema::number().min(num(18.0)).build())
        .required("name")
        .required("age")
        .build();

    let data = object(vec![("name", text("Jo")), ("age", number(10.0))]);

    let result = validate(&schema, &data);
    assert!(result.is_err());

    let errors = result.unwrap_err();
    println!("Found {} errors:", errors.len());
    for error in &errors {
        println!("  - {:?}: {}", error.code, error.message);
    }

    assert_eq!(errors.len(), 2);
}

#[test]
fn test_error_paths() {
    let schema = Schema::array()
        .items(
            Schema::object()
                .property("email", Schema::string().min_length(5).build())
                .required("email")
                .build(),
        )
        .build();

    let data = Value::Array(vec![
        object(vec![("email", text("good@example.com"))]),
        object(vec![("email", text("bad"))]),
    ]);

    let result = validate(&schema, &data);
    assert!(result.is_err());

    let errors = result.unwrap_err();
    let error = &errors[0];

    assert_eq!(error.path.len(), 2);
    match &error.path[0] {
        PathSegment::Index(i) => assert_eq!(*i, 1),
        _ => panic!("Expected Index"),
    }
    match &error.path[1] {
        PathSegment::Key(k) => assert_eq!(k, "email"),
        _ => panic!("Expected Key"),
    }
}

#[test]
fn missing_required_keys_each_give_an_error() {
    let schema = Schema::object().required("name").required("age").build();
    let errors = errors_of(&schema, &object(vec![]));
    assert_eq!(errors.len(), 2);
    assert!(errors.iter().all(|e| e.code == ErrorCode::Required));
    assert!(matches!(&errors[0].path[..], [PathSegment::Key(k)] if k == "name"));
    assert!(matches!(&errors[1].path[..], [PathSegment::Key(k)] if k == "age"));
    assert_eq!(errors[0].message, "Required property 'name' is missing");

    let reversed = Schema::object().required("age").required("name").build();
    let errors = errors_of(&reversed, &object(vec![]));
    assert_eq!(errors.len(), 2);
    assert!(errors.iter().all(|e| e.code == ErrorCode::Required));
}

#[test]
fn type_mismatch_gives_one_error() {
    let schema = Schema::number().min(num(1.0)).max(num(2.0)).build();
    let errors = errors_of(&schema, &text("abc"));
    assert_eq!(errors.len(), 1);
    assert_eq!(errors[0].code, ErrorCode::InvalidType);
    assert!(errors[0].path.is_empty());
    assert_eq!(errors[0].message, "Expected number, received string");
    assert!(matches!(errors[0].received, Some(Received::Kind(ValueKind::String))));

    let nested = Schema::object().required("a").required("b").build();
    let errors = errors_of(&nested, &Value::Array(vec![object(vec![])]));
    assert_eq!(errors.len(), 1);
    assert_eq!(errors[0].code, ErrorCode::InvalidType);
    assert_eq!(errors[0].message, "Expected object, received array");
}

#[test]
fn null_is_rejected_by_every_schema() {
    let schemas = vec![
        Schema::string().build(),
        Schema::number().build(),
        Schema::Boolean,
        Schema::object().build(),
        Schema::array().build(),
    ];
    for schema in &schemas {
        let errors = errors_of(schema, &Value::Null);
        assert_eq!(errors.len(), 1);
        assert_eq!(errors[0].code, ErrorCode::InvalidType);
        assert!(errors[0].message.ends_with("received null"));
    }
}

#[test]
fn missing_key_inside_array_has_index_then_key_path() {
    let schema = Schema::array().items(Schema::object().required("email").build()).build();
    let data = Value::Array(vec![object(vec![("email", text("ok@x.com"))]), object(vec![])]);
    let errors = errors_of(&schema, &data);
    assert_eq!(errors.len(), 1);
    assert_eq!(errors[0].code, ErrorCode::Required);
    assert_eq!(errors[0].path.len(), 2);
    assert!(matches!(errors[0].path[0], PathSegment::Index(1)));
    assert!(matches!(&errors[0].path[1], PathSegment::Key(k) if k == "email"));
}

#[test]
fn strict_object_rejects_unknown_keys() {
    let strict = Schema::object().strict().build();
    let data = object(vec![("x", number(1.0))]);
    let errors = errors_of(&strict, &data);
    assert_eq!(errors.len(), 1);
    assert_eq!(errors[0].code, ErrorCode::AdditionalProperty);
    assert!(matches!(&errors[0].path[..], [PathSegment::Key(k)] if k == "x"));
    assert_eq!(errors[0].message, "Additional property 'x' is not allowed");

    let lenient = Schema::object().build();
    assert!(validate(&lenient, &data).is_ok());
}

#[test]
fn array_length_bounds() {
    let schema = Schema::array().min_items(1).max_items(5).build();

    let errors = errors_of(&schema, &Value::Array(vec![]));
    assert_eq!(errors.len(), 1);
    assert_eq!(errors[0].code, ErrorCode::MinItems);
    assert!(errors[0].path.is_empty());
    assert_eq!(errors[0].expected, Some(Limit::Count(1)));
    assert!(matches!(errors[0].received, Some(Received::Count(0))));
    assert_eq!(errors[0].message, "Array must have at least 1 items");

    let six: Vec<Value> = (0..6).map(|i| number(i as f64)).collect();
    let errors = errors_of(&schema, &Value::Array(six));
    assert_eq!(errors.len(), 1);
    assert_eq!(errors[0].code, ErrorCode::MaxItems);
    assert_eq!(errors[0].expected, Some(Limit::Count(5)));
    assert!(matches!(errors[0].received, Some(Received::Count(6))));
    assert_eq!(errors[0].message, "Array must have at most 5 items");

    let three = vec![Value::Bool(true), Value::Null, text("z")];
    assert!(validate(&schema, &Value::Array(three)).is_ok());
}

#[test]
fn repeated_validation_gives_identical_errors() {
    let schema = Schema::object()
        .property("name", Schema::string().min_length(5).build())
        .property("tags", Schema::array().items(Schema::string().build()).build())
        .property("id", Schema::number().build())
        .required("id")
        .strict()
        .build();
    let data = object(vec![
        ("name", text("Al")),
        ("tags", Value::Array(vec![text("a"), number(3.0)])),
        ("extra", Value::Null),
    ]);
    let first = errors_of(&schema, &data);
    let second = errors_of(&schema, &data);
    assert_eq!(first.len(), 4);
    assert_eq!(format!("{:?}", first), format!("{:?}", second));

    let ok = object(vec![("id", number(1.0)), ("name", text("Alice"))]);
    assert!(validate(&schema, &ok).is_ok());
    assert!(validate(&schema, &ok).is_ok());
}

#[test]
fn errors_come_in_walk_order() {
    let schema = Schema::object()
        .property("name", Schema::string().min_length(5).build())
        .property("tags", Schema::array().items(Schema::string().build()).build())
        .required("id")
        .strict()
        .build();
    let data = object(vec![
        ("name", text("Al")),
        ("tags", Value::Array(vec![text("a"), number(3.0)])),
        ("extra", Value::Null),
    ]);
    let errors = errors_of(&schema, &data);
    let codes: Vec<ErrorCode> = errors.iter().map(|e| e.code).collect();
    assert_eq!(
        codes,
        vec![
            ErrorCode::Required,
            ErrorCode::MinLength,
            ErrorCode::InvalidType,
            ErrorCode::AdditionalProperty,
        ]
    );
    assert!(matches!(&errors[2].path[..], [PathSegment::Key(k), PathSegment::Index(1)] if k == "tags"));
}

#[test]
fn string_length_messages_and_bounds() {
    let schema = Schema::string().min_length(5).max_length(3).build();
    let errors = errors_of(&schema, &text("abcd"));
    assert_eq!(errors.len(), 2);
    assert_eq!(errors[0].code, ErrorCode::MinLength);
    assert_eq!(errors[0].message, "String must be at least 5 characters");
    assert_eq!(errors[0].expected, Some(Limit::Count(5)));
    assert!(matches!(&errors[0].received, Some(Received::Text(s)) if s == "abcd"));
    assert_eq!(errors[1].code, ErrorCode::MaxLength);
    assert_eq!(errors[1].message, "String must be at most 3 characters");

    let big = Schema::string().min_length(1234).build();
    let errors = errors_of(&big, &text(""));
    assert_eq!(errors[0].message, "String must be at least 1234 characters");
}

#[test]
fn string_length_counts_utf8_bytes() {
    let schema = Schema::string().min_length(2).max_length(2).build();
    assert!(validate(&schema, &text("é")).is_ok());
    assert!(validate(&schema, &text("ab")).is_ok());
    assert!(validate(&schema, &text("a")).is_err());
}

#[test]
fn number_bounds_compare_as_floats() {
    let schema = Schema::number().min(num(-1.5)).max(num(2.0)).build();
    assert!(validate(&schema, &number(-1.5)).is_ok());
    assert!(validate(&schema, &number(0.0)).is_ok());
    assert!(validate(&schema, &number(-0.0)).is_ok());
    assert!(validate(&schema, &number(2.0)).is_ok());

    let errors = errors_of(&schema, &number(-2.0));
    assert_eq!(errors.len(), 1);
    assert_eq!(errors[0].code, ErrorCode::Min);
    assert_eq!(errors[0].expected, Some(Limit::Number(num(-1.5))));
    assert!(matches!(errors[0].received, Some(Received::Number(n)) if n == num(-2.0)));

    let errors = errors_of(&schema, &number(2.5));
    assert_eq!(errors.len(), 1);
    assert_eq!(errors[0].code, ErrorCode::Max);

    let zero = Schema::number().min(num(0.0)).build();
    assert!(validate(&zero, &number(-0.0)).is_ok());
    assert!(validate(&zero, &number(-1e-300)).is_err());
    assert!(validate(&zero, &number(f64::INFINITY)).is_ok());
    assert!(validate(&zero, &number(f64::NEG_INFINITY)).is_err());
}

#[test]
fn number_less_than_follows_float_order() {
    let values = [-3.5, -1.0, -0.0, 0.0, 1e-10, 1.0, 7.25, f64::INFINITY, f64::NEG_INFINITY, f64::NAN];
    for a in values {
        for b in values {
            assert_eq!(num(a).less_than(&num(b)), a < b, "{} < {}", a, b);
        }
    }
}

#[test]
fn later_property_replaces_earlier() {
    let schema = Schema::object()
        .property("a", Schema::number().build())
        .property("a", Schema::string().build())
        .build();
    assert!(validate(&schema, &object(vec![("a", text("s"))])).is_ok());
    assert!(validate(&schema, &object(vec![("a", number(1.0))])).is_err());
    match &schema {
        Schema::Object(o) => assert_eq!(o.properties.len(), 1),
        _ => panic!("expected an object schema"),
    }
}

#[test]
fn boolean_schema_accepts_only_booleans() {
    assert!(validate(&Schema::Boolean, &Value::Bool(false)).is_ok());
    let errors = errors_of(&Schema::Boolean, &number(0.0));
    assert_eq!(errors.len(), 1);
    assert_eq!(errors[0].message, "Expected boolean, received number");
}

#[test]
fn repeated_required_name_is_reported_once() {
    let schema = Schema::object().required("a").required("a").build();
    match &schema {
        Schema::Object(o) => assert_eq!(o.required.len(), 1),
        _ => panic!("expected an object schema"),
    }
    let errors = errors_of(&schema, &object(vec![]));
    assert_eq!(errors.len(), 1);
    assert_eq!(errors[0].code, ErrorCode::Required);
}

#[test]
fn repeated_name_in_a_built_by_hand_schema_is_reported_once() {
    let schema = Schema::Object(ObjectSchema {
        properties: vec![],
        required: vec!["a".to_string(), "b".to_string(), "a".to_string()],
        additional_properties: true,
    });
    let errors = errors_of(&schema, &object(vec![]));
    assert_eq!(errors.len(), 2);
    assert!(matches!(&errors[0].path[..], [PathSegment::Key(k)] if k == "a"));
    assert!(matches!(&errors[1].path[..], [PathSegment::Key(k)] if k == "b"));
}

#[test]
fn additional_property_summarises_the_member() {
    let strict = Schema::object().strict().build();
    let data = object(vec![("x", number(1.0)), ("y", Value::Array(vec![]))]);
    let errors = errors_of(&strict, &data);
    assert_eq!(errors.len(), 2);
    assert!(matches!(errors[0].received, Some(Received::Kind(ValueKind::Number))));
    assert!(matches!(errors[1].received, Some(Received::Kind(ValueKind::Array))));
    assert!(matches!(&errors[1].path[..], [PathSegment::Key(k)] if k == "y"));
}

#[test]
fn clones_validate_alike() {
    let schema = Schema::array()
        .items(Schema::object().property("n", Schema::number().build()).required("n").build())
        .max_items(10)
        .build();
    let data = Value::Array(vec![object(vec![("n", text("x"))]), object(vec![])]);
    let copy = schema.clone();
    let data_copy = data.clone();
    assert_eq!(
        format!("{:?}", errors_of(&schema, &data)),
        format!("{:?}", errors_of(&copy, &data_copy))
    );
    assert_eq!(format!("{:?}", data), format!("{:?}", data_copy));
    assert_eq!(errors_of(&copy, &data_copy).len(), 2);
}

#[test]
fn counts_are_written_in_decimal() {
    let schema = Schema::array().min_items(10).build();
    let errors = errors_of(&schema, &Value::Array(vec![]));
    assert_eq!(errors[0].message, "Array must have at least 10 items");
    let schema = Schema::array().max_items(0).build();
    let errors = errors_of(&schema, &Value::Array(vec![Value::Null]));
    assert_eq!(errors[0].message, "Array must have at most 0 items");
}
