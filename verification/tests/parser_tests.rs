//! The tokenizer and the step forms.

use toolproof::json::JsonValue;
use toolproof::parser::{parse_segments, parse_step};
use toolproof::segments::ToolproofSegment::{Literal, Value, Variable};
use toolproof::ToolproofTestStep;
use toolproof::ToolproofTestStepState;

fn st(s: &str) -> JsonValue {
    JsonValue::Str(s.to_string())
}

#[test]
fn test_parsing_segments() {
    let segments = parse_segments("I run my program").expect("Valid segments");
    // We test equality on the segments directly, as the sequence itself uses
    // a looser comparison that doesn't look inside Value or Variable segments.
    assert_eq!(
        segments.segments,
        vec![Literal("i run my program".to_string())]
    );

    let segments = parse_segments(
        "I have a \"public/cat/'index'.html\" file with the body '<h1>Happy post about \"cats</h1>'",
    )
    .expect("Valid segments");
    assert_eq!(
        segments.segments,
        vec![
            Literal("i have a ".to_string()),
            Value(st("public/cat/'index'.html")),
            Literal(" file with the body ".to_string()),
            Value(st("<h1>Happy post about \"cats</h1>"))
        ]
    );

    let segments = parse_segments("In my browser, ''I eval {j\"s} and 'x'").expect(
        "Valid segments",
    );
    assert_eq!(
        segments.segments,
        vec![
            Literal("in my browser, ".to_string()),
            Value(st("")),
            Literal("i eval ".to_string()),
            Variable("j\"s".to_string()),
            Literal(" and ".to_string()),
            Value(st("x")),
        ]
    );
}

#[test]
fn test_parsing_steps() {
    let Ok(step) = parse_step("I have a {js} file".to_string(), Vec::new()) else {
        panic!("Step did not parse");
    };

    match step {
        ToolproofTestStep::Instruction {
            step,
            args,
            orig,
            state,
            platforms,
        } => {
            assert_eq!(
                step.segments,
                vec![
                    Literal("i have a ".to_string()),
                    Variable("js".to_string()),
                    Literal(" file".to_string())
                ]
            );
            assert!(args.is_empty());
            assert_eq!(orig, "I have a {js} file");
            assert_eq!(state, ToolproofTestStepState::Dormant);
            assert!(platforms.is_none());
        }
        other => panic!("expected an instruction, got {:?}", other),
    }

    let Ok(step) = parse_step(
        "The file {name} should contain {html}".to_string(),
        Vec::new(),
    ) else {
        panic!("Step did not parse");
    };

    match step {
        ToolproofTestStep::Assertion {
            retrieval,
            assertion,
            args,
            orig,
            state,
            platforms,
        } => {
            assert_eq!(
                retrieval.segments,
                vec![
                    Literal("the file ".to_string()),
                    Variable("name".to_string())
                ]
            );
            assert_eq!(
                assertion.segments,
                vec![
                    Literal("contain ".to_string()),
                    Variable("html".to_string()),
                ]
            );
            assert!(args.is_empty());
            assert_eq!(orig, "The file {name} should contain {html}");
            assert_eq!(state, ToolproofTestStepState::Dormant);
            assert!(platforms.is_none());
        }
        other => panic!("expected an assertion, got {:?}", other),
    }
}

#[test]
fn test_unclosed_quote_is_an_error() {
    match parse_segments("I have a \"file") {
        Err(toolproof::errors::ToolproofInputError::UnclosedValue { expected }) => {
            assert_eq!(expected, '"');
        }
        other => panic!("unexpected result: {:?}", other),
    }
    match parse_segments("I have a {file") {
        Err(toolproof::errors::ToolproofInputError::UnclosedValue { expected }) => {
            assert_eq!(expected, '}');
        }
        other => panic!("unexpected result: {:?}", other),
    }
}

#[test]
fn test_parent_dir() {
    assert_eq!(toolproof::parser::parent_dir("a/b/c.toolproof.yml"), "a/b");
    assert_eq!(toolproof::parser::parent_dir("c.toolproof.yml"), ".");
}

#[test]
fn test_build_test_file_defaults() {
    let raw = vec![
        toolproof::parser::RawToolproofTestStep::BareStep("I run \"echo hi\"".to_string()),
        toolproof::parser::RawToolproofTestStep::BareStep(
            "stdout should contain \"hi\"".to_string(),
        ),
    ];
    let file = toolproof::parser::build_test_file(
        "echo".to_string(),
        None,
        None,
        raw,
        "name: echo\r\nsteps:\n",
        "suite/echo.toolproof.yml".to_string(),
    )
    .expect("file should build");
    assert_eq!(file.name, "echo");
    assert_eq!(file.kind, toolproof::ToolproofFileType::Test);
    assert_eq!(file.steps.len(), 2);
    assert_eq!(file.file_directory, "suite");
    // Line endings are normalized in the kept source.
    assert_eq!(file.original_source, "name: echo\nsteps:\n");
}
