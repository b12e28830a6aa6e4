//! The sandbox, the step interpreter's decisions, the built-in step logic,
//! the orchestrator's policies, and the snapshot writer.

use toolproof::civilization::{Civilization, ServerState, TaskState, WindowState};
use toolproof::definitions::assertions::{Contain, Empty, Exactly, NotContain, NotEmpty};
use toolproof::definitions::browser::{
    auto_selector_timeout, escape_xpath_string, harnessed, image_format, init_script,
    interpret_harness_result, load_url, ImageFormat, TypeText,
};
use toolproof::definitions::filesystem::{FileReadError, NewFile, PlainFile};
use toolproof::definitions::hosting::{next_bind_action, record_bind_success, HostAction};
use toolproof::definitions::process::{record_command_output, EnvVar, FailingRun, Run, StdOut};
use toolproof::errors::{ToolproofStepError, ToolproofTestFailure};
use toolproof::json::JsonValue;
use toolproof::orchestrator::{
    check_supported_versions, exit_success, filter_close_matches, find_duplicate_name,
    mark_retried, retry_concurrency, summarize,
};
use toolproof::parser::parse_segments;
use toolproof::platforms::{normalize_line_endings, HostPlatform, ToolproofPlatform};
use toolproof::runner::{gate_step, timeout_failure};
use toolproof::text::decimal_string;
use toolproof::{ToolproofTestStep, ToolproofTestStepState, ToolproofTestSuccess};

fn st(s: &str) -> JsonValue {
    JsonValue::Str(s.to_string())
}

// Two concurrent tests receive independent civilizations: nothing set on one
// shows on the other.
#[test]
fn test_civilization_isolation() {
    let mut a = Civilization::new();
    let b = Civilization::new();

    a.set_env("TOKEN".to_string(), "one".to_string());
    a.materialize_tmp_dir("/tmp/a".to_string());
    record_command_output(&mut a, &b"out".to_vec(), &b"err".to_vec());

    assert!(b.env_vars.is_empty());
    assert!(b.tmp_dir.is_none());
    assert!(b.last_command_output.is_none());
    assert!(b.assigned_server_port.is_none());
    assert_eq!(a.tmp_dir.as_deref(), Some("/tmp/a"));
}

// Shutdown on an unused civilization is a no-op, and shutdown after full use
// releases every owned resource exactly once; a second shutdown changes
// nothing further.
#[test]
fn test_shutdown_idempotence() {
    let mut fresh = Civilization::new();
    fresh.shutdown();
    assert!(fresh.handles.is_empty());
    assert!(fresh.threads.is_empty());
    assert!(fresh.window.is_none());

    let mut used = Civilization::new();
    record_bind_success(&mut used);
    record_bind_success(&mut used);
    used.window = Some(WindowState::Open);
    used.shutdown();
    assert_eq!(used.handles, vec![ServerState::Stopped, ServerState::Stopped]);
    assert_eq!(used.threads, vec![TaskState::Aborted, TaskState::Aborted]);
    assert_eq!(used.window, Some(WindowState::Closed));

    used.shutdown();
    assert_eq!(used.handles, vec![ServerState::Stopped, ServerState::Stopped]);
    assert_eq!(used.threads, vec![TaskState::Aborted, TaskState::Aborted]);
    assert_eq!(used.window, Some(WindowState::Closed));
}

// The echo scenario's logic: the captured stream is decoded, retrieved, and
// contains the expected text.
#[test]
fn test_echo_scenario_logic() {
    let mut civ = Civilization::new();
    record_command_output(&mut civ, &b"hi\n".to_vec(), &Vec::new());

    assert!(Run.conclude("echo hi", "exit status: 0", true, &civ).is_ok());

    let stdout = StdOut.run(&civ).expect("stdout exists");
    assert_eq!(stdout, st("hi\n"));

    assert!(Contain.run(&stdout, &st("hi"), &mut civ).is_ok());
    assert!(Contain.run(&stdout, &st("bye"), &mut civ).is_err());
}

// ANSI escapes are stripped from captured streams.
#[test]
fn test_captured_stream_stripped() {
    let mut civ = Civilization::new();
    record_command_output(&mut civ, &b"\x1b[32mhi\x1b[m".to_vec(), &Vec::new());
    let stdout = StdOut.run(&civ).expect("stdout exists");
    assert_eq!(stdout, st("hi"));
}

// The file round-trip scenario's logic.
#[test]
fn test_file_round_trip_logic() {
    let write = NewFile
        .run("a/b.txt".to_string(), "hello".to_string())
        .expect("write planned");
    assert_eq!(write.filename, "a/b.txt");
    assert_eq!(write.contents, "hello");

    let mut civ = Civilization::new();
    let value = PlainFile
        .conclude(Ok("hello".to_string()))
        .expect("read concluded");
    assert!(Exactly.run(&value, &st("hello"), &mut civ).is_ok());
    assert!(Exactly.run(&value, &st("other"), &mut civ).is_err());

    match NewFile.run(String::new(), "hello".to_string()) {
        Err(ToolproofStepError::External(
            toolproof::errors::ToolproofInputError::ArgumentRequiresValue { arg },
        )) => assert_eq!(arg, "filename"),
        other => panic!("unexpected result: {:?}", other),
    }

    match PlainFile.conclude(Err(FileReadError::NotFound)) {
        Err(ToolproofStepError::Assertion(ToolproofTestFailure::Custom { msg })) => {
            assert_eq!(msg, "the file does not exist")
        }
        other => panic!("unexpected result: {:?}", other),
    }
}

// The missing-step diagnostics keep the best candidate and drop weak ones per
// the ranking rule.
#[test]
fn test_closest_match_filtering() {
    let ranked = vec![
        ("i run {___}".to_string(), 350u32),
        ("i have a {___} file".to_string(), 500u32),
        ("stdout".to_string(), 300u32),
    ];
    let kept = filter_close_matches(&ranked);
    // The best entry survives any score; later ones need at least 0.4.
    assert_eq!(kept, vec!["i run {___}".to_string(), "i have a {___} file".to_string()]);
}

// Step timeout: the failure carries the exact message, and the step is
// marked failed.
#[test]
fn test_timeout_failure_message() {
    match timeout_failure(1) {
        ToolproofStepError::Assertion(ToolproofTestFailure::Custom { msg }) => {
            assert_eq!(msg, "Step timed out after 1s")
        }
        other => panic!("unexpected error: {:?}", other),
    }
}

// Platform gating: a step gated to another system is skipped without giving
// the shell anything to execute.
#[test]
fn test_platform_gating() {
    let mut step = ToolproofTestStep::Instruction {
        step: parse_segments("I run \"echo hi\"").expect("Valid segments"),
        args: Vec::new(),
        orig: "I run \"echo hi\"".to_string(),
        state: ToolproofTestStepState::Dormant,
        platforms: Some(vec![ToolproofPlatform::Linux]),
    };
    let skipped = gate_step(&mut step, HostPlatform::Windows);
    assert!(skipped);
    assert_eq!(step.state(), ToolproofTestStepState::Skipped);

    let mut ungated = ToolproofTestStep::Instruction {
        step: parse_segments("I run \"echo hi\"").expect("Valid segments"),
        args: Vec::new(),
        orig: "I run \"echo hi\"".to_string(),
        state: ToolproofTestStepState::Dormant,
        platforms: None,
    };
    assert!(!gate_step(&mut ungated, HostPlatform::Windows));
    assert_eq!(ungated.state(), ToolproofTestStepState::Dormant);
}

// Retry policy: concurrency halves with a floor of one, and a pass on a
// retry records the attempt.
#[test]
fn test_retry_policy() {
    assert_eq!(retry_concurrency(10), 5);
    assert_eq!(retry_concurrency(5), 2);
    assert_eq!(retry_concurrency(1), 1);
    assert_eq!(
        mark_retried(ToolproofTestSuccess::Passed { attempts: 0 }, 1),
        ToolproofTestSuccess::Passed { attempts: 1 }
    );
    assert_eq!(
        mark_retried(ToolproofTestSuccess::Skipped, 1),
        ToolproofTestSuccess::Skipped
    );
}

// The summary counts and the exit status.
#[test]
fn test_summary_counts() {
    let results = vec![
        Some(ToolproofTestSuccess::Passed { attempts: 0 }),
        Some(ToolproofTestSuccess::Passed { attempts: 1 }),
        Some(ToolproofTestSuccess::Skipped),
        None,
    ];
    let summary = summarize(&results);
    assert_eq!(summary.passing, 2);
    assert_eq!(summary.retried_passed, 1);
    assert_eq!(summary.failing, 1);
    assert_eq!(summary.skipped, 1);
    assert!(!exit_success(&summary));

    let all_good = summarize(&vec![Some(ToolproofTestSuccess::Passed { attempts: 0 })]);
    assert!(exit_success(&all_good));
}

// Two files sharing one name abort startup, naming both paths.
#[test]
fn test_duplicate_name() {
    let files = vec![
        ("foo".to_string(), "a/one.toolproof.yml".to_string()),
        ("bar".to_string(), "a/two.toolproof.yml".to_string()),
        ("foo".to_string(), "b/three.toolproof.yml".to_string()),
    ];
    match find_duplicate_name(&files) {
        Some(toolproof::errors::ToolproofInputError::DuplicateName {
            path_one,
            path_two,
            name,
        }) => {
            assert_eq!(name, "foo");
            assert_eq!(path_one, "a/one.toolproof.yml");
            assert_eq!(path_two, "b/three.toolproof.yml");
        }
        other => panic!("unexpected result: {:?}", other),
    }
    let unique = vec![
        ("foo".to_string(), "a.yml".to_string()),
        ("bar".to_string(), "b.yml".to_string()),
    ];
    assert!(find_duplicate_name(&unique).is_none());
}

// The snapshot round trip: a document whose captured snapshots equal the
// recorded ones is reproduced byte for byte.
#[test]
fn test_snapshot_round_trip() {
    let captured = "hello\nworld";
    let recorded = toolproof::snapshot_writer::prefixed_content(captured);
    assert_eq!(recorded, "  \u{254e}hello\n  \u{254e}world");

    let doc = "name: snap\nsteps:\n  - snapshot: stdout\n    snapshot_content: |-\n      \u{254e}hello\n      \u{254e}world\n";
    let file = toolproof::ToolproofTestFile {
        name: "snap".to_string(),
        kind: toolproof::ToolproofFileType::Test,
        platforms: None,
        steps: vec![ToolproofTestStep::Snapshot {
            snapshot: parse_segments("stdout").expect("Valid segments"),
            snapshot_content: Some(captured.to_string()),
            args: vec![("snapshot_content".to_string(), st(&recorded))],
            orig: "stdout".to_string(),
            state: ToolproofTestStepState::Passed,
            platforms: None,
        }],
        original_source: doc.to_string(),
        file_path: "snap.toolproof.yml".to_string(),
        file_directory: ".".to_string(),
        failure_screenshot: None,
    };
    let out = toolproof::snapshot_writer::write_yaml_snapshots(doc, &file);
    assert_eq!(out, doc);
}

// A changed capture rewrites only its step's snapshot block.
#[test]
fn test_snapshot_changed_rewrites_block() {
    let doc = "name: snap\nsteps:\n  - snapshot: stdout\n    snapshot_content: |-\n      \u{254e}old\n";
    let file = toolproof::ToolproofTestFile {
        name: "snap".to_string(),
        kind: toolproof::ToolproofFileType::Test,
        platforms: None,
        steps: vec![ToolproofTestStep::Snapshot {
            snapshot: parse_segments("stdout").expect("Valid segments"),
            snapshot_content: Some("new".to_string()),
            args: vec![(
                "snapshot_content".to_string(),
                st("  \u{254e}old"),
            )],
            orig: "stdout".to_string(),
            state: ToolproofTestStepState::Passed,
            platforms: None,
        }],
        original_source: doc.to_string(),
        file_path: "snap.toolproof.yml".to_string(),
        file_directory: ".".to_string(),
        failure_screenshot: None,
    };
    let out = toolproof::snapshot_writer::write_yaml_snapshots(doc, &file);
    assert_ne!(out, doc);
    assert!(out.contains("snapshot_content: |-"));
    assert!(out.contains("  \u{254e}new"));
    assert!(!out.contains("\u{254e}old"));
}

// A snapshot captured by a step whose document item has no snapshot block yet
// gains one at the end of the item.
#[test]
fn test_snapshot_insertion_adds_block() {
    let doc = "name: snap\nsteps:\n  - snapshot: stdout\nname_after: tail\n";
    let file = toolproof::ToolproofTestFile {
        name: "snap".to_string(),
        kind: toolproof::ToolproofFileType::Test,
        platforms: None,
        steps: vec![ToolproofTestStep::Snapshot {
            snapshot: parse_segments("stdout").expect("Valid segments"),
            snapshot_content: Some("fresh".to_string()),
            args: Vec::new(),
            orig: "stdout".to_string(),
            state: ToolproofTestStepState::Passed,
            platforms: None,
        }],
        original_source: doc.to_string(),
        file_path: "snap.toolproof.yml".to_string(),
        file_directory: ".".to_string(),
        failure_screenshot: None,
    };
    let out = toolproof::snapshot_writer::write_yaml_snapshots(doc, &file);
    assert_eq!(
        out,
        "name: snap\nsteps:\n  - snapshot: stdout\n    snapshot_content: |-\n        \u{254e}fresh\nname_after: tail\n"
    );
}

// The version gate: a local build always passes, a pinned version is matched
// against the requirement.
#[test]
fn test_supported_versions() {
    assert!(matches!(check_supported_versions(">=0.9", "0.0.0"), Ok(true)));
    assert!(matches!(check_supported_versions(">=0.9", "1.2.3"), Ok(true)));
    assert!(matches!(check_supported_versions(">=2.0", "1.2.3"), Ok(false)));
    assert!(check_supported_versions("not a requirement", "1.2.3").is_err());
}

// Assorted built-in step logic: environment variables, failing runs, and the
// assertion family.
#[test]
fn test_builtin_step_logic() {
    let mut civ = Civilization::new();
    assert!(EnvVar
        .run("NAME".to_string(), "value".to_string(), &mut civ)
        .is_ok());
    assert_eq!(
        civ.env_vars,
        vec![("NAME".to_string(), "value".to_string())]
    );

    assert!(FailingRun
        .conclude("false", "exit status: 1", false, &civ)
        .is_ok());
    assert!(FailingRun
        .conclude("true", "exit status: 0", true, &civ)
        .is_err());

    assert!(Empty.run(&st(""), &mut civ).is_ok());
    assert!(Empty.run(&JsonValue::Null, &mut civ).is_ok());
    assert!(Empty.run(&st("x"), &mut civ).is_err());
    assert!(NotEmpty.run(&st("x"), &mut civ).is_ok());
    assert!(NotContain.run(&st("abc"), &st("zz"), &mut civ).is_ok());

    // Strings contain numbers and booleans by their printed form.
    assert!(Contain
        .run(&st("value is 42!"), &JsonValue::Number("42".to_string()), &mut civ)
        .is_ok());
    assert!(Contain
        .run(&st("it is true that"), &JsonValue::Bool(true), &mut civ)
        .is_ok());

    // A pairing the comparison leaves unimplemented fails loudly.
    match Contain.run(&JsonValue::Array(vec![st("a")]), &st("a"), &mut civ) {
        Err(ToolproofStepError::Internal(_)) => {}
        other => panic!("unexpected result: {:?}", other),
    }
}

// Browser step helpers: URLs, the harness, XPath escaping, key mapping, and
// screenshot formats.
#[test]
fn test_browser_helpers() {
    assert_eq!(load_url(8080, "/index.html"), "http://localhost:8080/index.html");

    let harness = harnessed("return 1;".to_string());
    assert!(harness.contains("return 1;"));
    assert!(!harness.contains("// insert_toolproof_inner_js"));

    let init = init_script(10);
    assert!(init.contains("10000"));

    assert_eq!(auto_selector_timeout(10), 8);
    assert_eq!(auto_selector_timeout(1), 1);

    assert_eq!(escape_xpath_string("plain"), "'plain'");
    assert_eq!(escape_xpath_string("it's"), "concat('it',\"'\",'s')");

    let keys = TypeText.keys_for("a\n\tb");
    assert_eq!(
        keys,
        vec!["a".to_string(), "Enter".to_string(), "Tab".to_string(), "b".to_string()]
    );

    assert!(matches!(image_format(Some(&"png".to_string())), Ok(ImageFormat::Png)));
    assert!(matches!(image_format(Some(&"jpeg".to_string())), Ok(ImageFormat::Jpeg)));
    assert!(image_format(Some(&"gif".to_string())).is_err());
    assert!(image_format(None).is_err());
}

// The harness result shape: a non-object fails as an input error, gathered
// errors fail as a browser assertion carrying messages and logs, a clean run
// yields the inner response.
#[test]
fn test_harness_interpretation() {
    assert!(interpret_harness_result(None).is_err());
    assert!(interpret_harness_result(Some(st("nope"))).is_err());

    let clean = JsonValue::Object(vec![
        ("toolproof_errs".to_string(), JsonValue::Array(vec![])),
        ("logs".to_string(), st("")),
        ("inner_response".to_string(), st("payload")),
    ]);
    match interpret_harness_result(Some(clean)) {
        Ok(v) => assert_eq!(v, st("payload")),
        other => panic!("unexpected result: {:?}", other),
    }

    let failed = JsonValue::Object(vec![
        (
            "toolproof_errs".to_string(),
            JsonValue::Array(vec![st("first"), st("second")]),
        ),
        ("logs".to_string(), st("log line")),
    ]);
    match interpret_harness_result(Some(failed)) {
        Err(ToolproofStepError::Assertion(ToolproofTestFailure::BrowserJavascriptErr {
            msg,
            logs,
        })) => {
            assert_eq!(msg, "first\nsecond");
            assert_eq!(logs, "log line");
        }
        other => panic!("unexpected result: {:?}", other),
    }
}

// Host binding: five attempts, then give up; each success is recorded for
// shutdown.
#[test]
fn test_host_bind_policy() {
    assert_eq!(next_bind_action(0), HostAction::Bind);
    assert_eq!(next_bind_action(4), HostAction::Bind);
    assert_eq!(next_bind_action(5), HostAction::GiveUp);
}

// Text utilities: decimal rendering, line endings, JSON rendering.
#[test]
fn test_text_and_json_rendering() {
    assert_eq!(decimal_string(0), "0");
    assert_eq!(decimal_string(1234), "1234");
    assert_eq!(normalize_line_endings("a\r\nb\r\n"), "a\nb\n");

    let value = JsonValue::Object(vec![
        ("a".to_string(), JsonValue::Number("3".to_string())),
        ("b".to_string(), JsonValue::Array(vec![st("x\"y"), JsonValue::Bool(false)])),
        ("c".to_string(), JsonValue::Null),
    ]);
    assert_eq!(
        value.to_json_string(),
        "{\"a\":3,\"b\":[\"x\\\"y\",false],\"c\":null}"
    );
}

// The file tree rendering used in diagnostics.
#[test]
fn test_file_tree_rendering() {
    let entries = vec![
        (0usize, "index.html".to_string()),
        (1usize, "cat.txt".to_string()),
    ];
    assert_eq!(
        toolproof::definitions::filesystem::get_file_tree(&entries),
        "| index.html\n|   cat.txt"
    );
}
