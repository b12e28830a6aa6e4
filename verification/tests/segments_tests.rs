//! The segment pattern language: argument binding, placeholder expansion, and
//! the wildcard-aware equality.

use toolproof::json::JsonValue;
use toolproof::options::{ToolproofContext, ToolproofParams};
use toolproof::parser::parse_segments;
use toolproof::segments::{replace_inside_value, SegmentArgs, ToolproofSegments};
use toolproof::universe::Registry;

fn default_context() -> ToolproofContext {
    let mut params = ToolproofParams::default();
    params.placeholders.push(("ext".to_string(), "pdf".to_string()));
    ToolproofContext {
        version: "test".to_string(),
        working_directory: "/work".to_string(),
        params,
    }
}

#[test]
fn test_building_args() {
    let segments_def =
        parse_segments("I have a {name} file with the contents {var}").expect("Valid instruction");

    let user_instruction = parse_segments("I have a \"index.html\" file with the contents ':)'")
        .expect("Valid instruction");

    let input: Vec<(String, JsonValue)> = Vec::new();

    let args = SegmentArgs::build(&segments_def, &user_instruction, &input, None, None, None)
        .expect("Args built successfully");

    let Ok(str) = args.get_string("name") else {
        panic!(
            "Argument was not a string, got {:?}",
            args.get_string("name")
        );
    };
    assert_eq!(str, "index.html");
}

#[test]
fn test_arg_placeholders() {
    let instruction_def =
        parse_segments("I have a {name} file with the contents {var}").expect("Valid instruction");

    let user_instruction =
        parse_segments("I have a \"%prefix%index.%ext%\" file with the contents ':)'")
            .expect("Valid instruction");

    let input: Vec<(String, JsonValue)> = Vec::new();
    let ctx = default_context();
    let transient = vec![("prefix".to_string(), "__".to_string())];

    let args = SegmentArgs::build(
        &instruction_def,
        &user_instruction,
        &input,
        Some(&ctx),
        None,
        Some(&transient),
    )
    .expect("Args built successfully");

    let Ok(str) = args.get_string("name") else {
        panic!(
            "Argument was not a string, got {:?}",
            args.get_string("name")
        );
    };
    assert_eq!(str, "__index.pdf");
}

// Segments should alias to each other regardless of the contents of their
// variables or values.
#[test]
fn test_segments_equality() {
    let segments_a =
        parse_segments("I have a 'index.html' file with the contents {var}").expect(
            "Valid segments",
        );

    let segments_b =
        parse_segments("I have a {filename} file with the contents {var}").expect("Valid segments");

    let segments_c = parse_segments("I have one {filename} file with the contents {var}").expect(
        "Valid segments",
    );

    assert_eq!(segments_a, segments_b);

    let mut map: Registry<&str> = Registry::new();
    assert!(map.insert(segments_b.clone(), "b"));

    assert_eq!(map.get(&segments_a), Some(&"b"));

    assert_ne!(segments_b, segments_c);
    assert_eq!(map.get(&segments_c), None);
}

fn st(s: &str) -> JsonValue {
    JsonValue::Str(s.to_string())
}

#[test]
fn test_complex_placeholders() {
    let placeholders = vec![
        ("cloud".to_string(), "cannon".to_string()),
        ("thekey".to_string(), "the value".to_string()),
    ];

    let start_value = JsonValue::Object(vec![
        ("title".to_string(), st("Hello cloud%cloud%")),
        (
            "tags".to_string(),
            JsonValue::Array(vec![st("cannon"), st("%cloud%")]),
        ),
        (
            "nested".to_string(),
            JsonValue::Object(vec![
                ("null".to_string(), JsonValue::Null),
                ("count".to_string(), JsonValue::Number("3".to_string())),
                ("replaced".to_string(), st("thekey is %thekey%")),
            ]),
        ),
    ]);

    let end_value = replace_inside_value(&start_value, "%", &placeholders);

    let expected_end_value = JsonValue::Object(vec![
        ("title".to_string(), st("Hello cloudcannon")),
        (
            "tags".to_string(),
            JsonValue::Array(vec![st("cannon"), st("cannon")]),
        ),
        (
            "nested".to_string(),
            JsonValue::Object(vec![
                ("null".to_string(), JsonValue::Null),
                ("count".to_string(), JsonValue::Number("3".to_string())),
                ("replaced".to_string(), st("thekey is the value")),
            ]),
        ),
    ]);

    assert_eq!(end_value, expected_end_value);
}

// A value with no delimiter anywhere comes back from expansion untouched.
#[test]
fn test_placeholders_without_delimiter() {
    let placeholders = vec![("who".to_string(), "world".to_string())];
    let value = JsonValue::Array(vec![
        st("no delimiter here"),
        JsonValue::Bool(true),
        JsonValue::Number("7".to_string()),
        JsonValue::Null,
    ]);
    let expanded = replace_inside_value(&value, "%", &placeholders);
    assert_eq!(expanded, value);
}

// Two user sequences that differ only in their quoted values hash alike and
// match the same template.
#[test]
fn test_wildcard_invariant_hash() {
    let a = parse_segments("I have a \"one.txt\" file").expect("Valid segments");
    let b = parse_segments("I have a \"two.txt\" file").expect("Valid segments");
    let template = parse_segments("I have a {filename} file").expect("Valid segments");

    assert_eq!(a.hash_code(), b.hash_code());
    assert_eq!(a, template);
    assert_eq!(b, template);
    assert_eq!(a.get_comparison_string(), b.get_comparison_string());
    assert_eq!(a.get_comparison_string(), "i have a {___} file");
}

// Equality is an equivalence: a value-bearing user step equals itself, and
// two user steps differing only in their quoted values are equal.
#[test]
fn test_segments_equality_is_reflexive() {
    let a = parse_segments("I have a \"one.txt\" file").expect("Valid segments");
    let b = parse_segments("I have a \"two.txt\" file").expect("Valid segments");
    assert_eq!(a, a);
    assert_eq!(a, b);
    assert_eq!(b, a);
}

#[test]
fn test_variable_names_in_order() {
    let template = parse_segments("I move {src} to {dst}").expect("Valid segments");
    let names = template.get_variable_names();
    assert_eq!(names, vec!["src".to_string(), "dst".to_string()]);
}

#[test]
fn test_get_as_string_round_trip() {
    let template = parse_segments("I have a {filename} file").expect("Valid segments");
    assert_eq!(template.get_as_string(), "i have a {filename} file");

    let user = parse_segments("I have a \"cat.txt\" file").expect("Valid segments");
    assert_eq!(user.get_as_string(), "i have a \"\"cat.txt\"\" file");
}

// A variable referenced inside a macro body that the supplied arguments do
// not bind is the nonexistent-argument error, listing what is bound.
#[test]
fn test_binding_missing_argument() {
    let template = parse_segments("I have a {name} file").expect("Valid segments");
    let inner = parse_segments("I have a {missing} file").expect("Valid segments");
    let supplied: Vec<(String, JsonValue)> = vec![("present".to_string(), st("x"))];

    let err = SegmentArgs::build(&template, &inner, &supplied, None, None, None)
        .expect_err("binding should fail");
    match err {
        toolproof::errors::ToolproofInputError::NonexistentArgument { arg, has } => {
            assert_eq!(arg, "missing");
            assert_eq!(has, "present");
        }
        other => panic!("unexpected error: {:?}", other),
    }
}

// A bound value of the wrong JSON type earns the typed error.
#[test]
fn test_get_string_wrong_type() {
    let template = parse_segments("I check {flag}").expect("Valid segments");
    let user_args: Vec<(String, JsonValue)> =
        vec![("flag".to_string(), JsonValue::Bool(true))];
    let inner = parse_segments("I check {flag}").expect("Valid segments");

    let args = SegmentArgs::build(&template, &inner, &user_args, None, None, None)
        .expect("Args built successfully");
    match args.get_string("flag") {
        Err(toolproof::errors::ToolproofInputError::IncorrectArgumentType {
            arg,
            was,
            expected,
        }) => {
            assert_eq!(arg, "flag");
            assert_eq!(was, "bool");
            assert_eq!(expected, "string");
        }
        other => panic!("unexpected result: {:?}", other),
    }
}
