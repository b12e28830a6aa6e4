//! Toolproof: an end-to-end test runner for human-readable acceptance tests.
//!
//! Each test is a sequence of natural-language steps. A step matches a
//! registered definition through a segment pattern language whose equality
//! treats value and variable positions as wildcards, binds named arguments,
//! and runs against a per-test sandbox (a "civilization"). This crate holds
//! the verified core: the pattern language and matcher, argument binding and
//! placeholder substitution, the step interpreter's decisions, the sandbox
//! state model, the built-in step definitions' logic, and the snapshot
//! writer. The I/O shell around it (processes, files, sockets, the browser
//! driver) lives outside and drives these functions.

pub mod civilization;
pub mod definitions;
pub mod errors;
pub mod logging;
pub mod options;
pub mod orchestrator;
pub mod parser;
pub mod platforms;
pub mod json;
pub mod runner;
pub mod segments;
pub mod snapshot_writer;
pub mod text;
pub mod universe;

use vstd::prelude::*;

use crate::json::JsonValue;
use crate::platforms::ToolproofPlatform;
use crate::segments::{SegView, ToolproofSegments};

verus! {

/// Whether a test file holds a runnable test or only steps for others to
/// reference.
#[derive(Debug, Clone, Copy, PartialEq, Eq, Structural)]
pub enum ToolproofFileType {
    Test,
    Reference,
}

/// The lifecycle of one step within a run.
#[derive(Debug, Clone, Copy, PartialEq, Eq, Structural)]
pub enum ToolproofTestStepState {
    /// Not reached yet; steps after a failure stay dormant.
    Dormant,
    /// Gated to another platform and never executed.
    Skipped,
    Failed,
    Passed,
}

/// How a finished test ended well.
#[derive(Debug, Clone, Copy, PartialEq, Eq, Structural)]
pub enum ToolproofTestSuccess {
    /// The whole file was gated to another platform.
    Skipped,
    /// All steps passed; `attempts` counts the retries that were needed
    /// before the passing run (0 on the first try).
    Passed { attempts: usize },
}

/// Named JSON arguments supplied beside a step.
pub type StepArgs = Vec<(String, JsonValue)>;

/// The view of named JSON arguments.
pub type ArgsView = Seq<(Seq<char>, crate::json::JsonView)>;

/// One step of a test.
#[derive(Debug)]
pub enum ToolproofTestStep {
    /// Run the steps of another test file, found at a path relative to the
    /// referring file's directory.
    Ref {
        other_file: String,
        orig: String,
        hydrated_steps: Option<Vec<ToolproofTestStep>>,
        state: ToolproofTestStepState,
        platforms: Option<Vec<ToolproofPlatform>>,
    },
    /// Run a named, parameterized sequence of steps with a local placeholder
    /// frame.
    Macro {
        step_macro: ToolproofSegments,
        args: StepArgs,
        orig: String,
        hydrated_steps: Option<Vec<ToolproofTestStep>>,
        state: ToolproofTestStepState,
        platforms: Option<Vec<ToolproofPlatform>>,
    },
    /// Perform an action.
    Instruction {
        step: ToolproofSegments,
        args: StepArgs,
        orig: String,
        state: ToolproofTestStepState,
        platforms: Option<Vec<ToolproofPlatform>>,
    },
    /// Retrieve a value and assert on it.
    Assertion {
        retrieval: ToolproofSegments,
        assertion: ToolproofSegments,
        args: StepArgs,
        orig: String,
        state: ToolproofTestStepState,
        platforms: Option<Vec<ToolproofPlatform>>,
    },
    /// Retrieve a value and capture it into the test file for review.
    Snapshot {
        snapshot: ToolproofSegments,
        snapshot_content: Option<String>,
        args: StepArgs,
        orig: String,
        state: ToolproofTestStepState,
        platforms: Option<Vec<ToolproofPlatform>>,
    },
    /// Retrieve a value and write it to a file in the sandbox.
    Extract {
        extract: ToolproofSegments,
        extract_location: String,
        args: StepArgs,
        orig: String,
        state: ToolproofTestStepState,
        platforms: Option<Vec<ToolproofPlatform>>,
    },
}

/// The mathematical shape of one step.
pub enum StepView {
    Ref {
        other_file: Seq<char>,
        orig: Seq<char>,
        hydrated_steps: Option<Seq<StepView>>,
        state: ToolproofTestStepState,
        platforms: Option<Seq<ToolproofPlatform>>,
    },
    Macro {
        step_macro: Seq<SegView>,
        args: ArgsView,
        orig: Seq<char>,
        hydrated_steps: Option<Seq<StepView>>,
        state: ToolproofTestStepState,
        platforms: Option<Seq<ToolproofPlatform>>,
    },
    Instruction {
        step: Seq<SegView>,
        args: ArgsView,
        orig: Seq<char>,
        state: ToolproofTestStepState,
        platforms: Option<Seq<ToolproofPlatform>>,
    },
    Assertion {
        retrieval: Seq<SegView>,
        assertion: Seq<SegView>,
        args: ArgsView,
        orig: Seq<char>,
        state: ToolproofTestStepState,
        platforms: Option<Seq<ToolproofPlatform>>,
    },
    Snapshot {
        snapshot: Seq<SegView>,
        snapshot_content: Option<Seq<char>>,
        args: ArgsView,
        orig: Seq<char>,
        state: ToolproofTestStepState,
        platforms: Option<Seq<ToolproofPlatform>>,
    },
    Extract {
        extract: Seq<SegView>,
        extract_location: Seq<char>,
        args: ArgsView,
        orig: Seq<char>,
        state: ToolproofTestStepState,
        platforms: Option<Seq<ToolproofPlatform>>,
    },
}

/// The view of an optional platform gate.
pub open spec fn platforms_view(p: Option<Vec<ToolproofPlatform>>) -> Option<
    Seq<ToolproofPlatform>,
> {
    match p {
        Option::Some(v) => Option::Some(v@),
        Option::None => Option::None,
    }
}

/// The view of an optional captured snapshot.
pub open spec fn content_view(c: Option<String>) -> Option<Seq<char>> {
    match c {
        Option::Some(s) => Option::Some(s@),
        Option::None => Option::None,
    }
}

/// The view of one step.
pub open spec fn step_view(s: ToolproofTestStep) -> StepView
    decreases s via step_view_decreases
{
    match s {
        ToolproofTestStep::Ref { other_file, orig, hydrated_steps, state, platforms } => {
            StepView::Ref {
                other_file: other_file@,
                orig: orig@,
                hydrated_steps: match hydrated_steps {
                    Option::Some(v) => Option::Some(steps_view(v@)),
                    Option::None => Option::None,
                },
                state,
                platforms: platforms_view(platforms),
            }
        },
        ToolproofTestStep::Macro { step_macro, args, orig, hydrated_steps, state, platforms } => {
            StepView::Macro {
                step_macro: step_macro@,
                args: crate::json::json_view_entries(args@),
                orig: orig@,
                hydrated_steps: match hydrated_steps {
                    Option::Some(v) => Option::Some(steps_view(v@)),
                    Option::None => Option::None,
                },
                state,
                platforms: platforms_view(platforms),
            }
        },
        ToolproofTestStep::Instruction { step, args, orig, state, platforms } => {
            StepView::Instruction {
                step: step@,
                args: crate::json::json_view_entries(args@),
                orig: orig@,
                state,
                platforms: platforms_view(platforms),
            }
        },
        ToolproofTestStep::Assertion { retrieval, assertion, args, orig, state, platforms } => {
            StepView::Assertion {
                retrieval: retrieval@,
                assertion: assertion@,
                args: crate::json::json_view_entries(args@),
                orig: orig@,
                state,
                platforms: platforms_view(platforms),
            }
        },
        ToolproofTestStep::Snapshot { snapshot, snapshot_content, args, orig, state, platforms } => {
            StepView::Snapshot {
                snapshot: snapshot@,
                snapshot_content: content_view(snapshot_content),
                args: crate::json::json_view_entries(args@),
                orig: orig@,
                state,
                platforms: platforms_view(platforms),
            }
        },
        ToolproofTestStep::Extract { extract, extract_location, args, orig, state, platforms } => {
            StepView::Extract {
                extract: extract@,
                extract_location: extract_location@,
                args: crate::json::json_view_entries(args@),
                orig: orig@,
                state,
                platforms: platforms_view(platforms),
            }
        },
    }
}

/// The views of a sequence of steps.
pub open spec fn steps_view(s: Seq<ToolproofTestStep>) -> Seq<StepView>
    decreases s via steps_view_decreases
{
    if s.len() == 0 {
        Seq::empty()
    } else {
        seq![step_view(s[0])] + steps_view(s.drop_first())
    }
}

#[via_fn]
proof fn step_view_decreases(s: ToolproofTestStep) {
    broadcast use vstd::std_specs::vec::axiom_vec_decreases_to_view;

}

#[via_fn]
proof fn steps_view_decreases(s: Seq<ToolproofTestStep>) {
    broadcast use vstd::seq::axiom_seq_index_decreases, vstd::seq::axiom_seq_subrange_decreases;

}

/// `steps_view` is the element-wise view.
pub proof fn lemma_steps_view(s: Seq<ToolproofTestStep>)
    ensures
        steps_view(s).len() == s.len(),
        forall|i: int| 0 <= i < s.len() ==> steps_view(s)[i] == step_view(#[trigger] s[i]),
    decreases s.len(),
{
    if s.len() > 0 {
        lemma_steps_view(s.drop_first());
        assert forall|i: int| 0 <= i < s.len() implies steps_view(s)[i] == step_view(
            #[trigger] s[i],
        ) by {
            if i > 0 {
                assert(s.drop_first()[i - 1] == s[i]);
                assert(steps_view(s)[i] == steps_view(s.drop_first())[i - 1]);
            }
        }
    }
}

impl View for ToolproofTestStep {
    type V = StepView;

    open spec fn view(&self) -> StepView {
        step_view(*self)
    }
}

impl StepView {
    /// The state of a step, whichever variant it is.
    pub open spec fn state(self) -> ToolproofTestStepState {
        match self {
            StepView::Ref { state, .. } => state,
            StepView::Macro { state, .. } => state,
            StepView::Instruction { state, .. } => state,
            StepView::Assertion { state, .. } => state,
            StepView::Snapshot { state, .. } => state,
            StepView::Extract { state, .. } => state,
        }
    }

    /// The platform gate of a step, whichever variant it is.
    pub open spec fn platforms(self) -> Option<Seq<ToolproofPlatform>> {
        match self {
            StepView::Ref { platforms, .. } => platforms,
            StepView::Macro { platforms, .. } => platforms,
            StepView::Instruction { platforms, .. } => platforms,
            StepView::Assertion { platforms, .. } => platforms,
            StepView::Snapshot { platforms, .. } => platforms,
            StepView::Extract { platforms, .. } => platforms,
        }
    }
}

impl ToolproofTestStep {
    /// The state this step is in.
    pub fn state(&self) -> (r: ToolproofTestStepState)
        ensures
            r == self@.state(),
    {
        match self {
            ToolproofTestStep::Ref { state, .. } => *state,
            ToolproofTestStep::Macro { state, .. } => *state,
            ToolproofTestStep::Instruction { state, .. } => *state,
            ToolproofTestStep::Assertion { state, .. } => *state,
            ToolproofTestStep::Snapshot { state, .. } => *state,
            ToolproofTestStep::Extract { state, .. } => *state,
        }
    }
}

/// One parsed test file.
#[derive(Debug)]
pub struct ToolproofTestFile {
    pub name: String,
    pub kind: ToolproofFileType,
    pub platforms: Option<Vec<ToolproofPlatform>>,
    pub steps: Vec<ToolproofTestStep>,
    pub original_source: String,
    pub file_path: String,
    pub file_directory: String,
    pub failure_screenshot: Option<String>,
}

/// One parsed macro file: a pattern and the steps it expands to.
#[derive(Debug)]
pub struct ToolproofMacroFile {
    pub macro_segments: ToolproofSegments,
    pub macro_orig: String,
    pub steps: Vec<ToolproofTestStep>,
    pub original_source: String,
    pub file_path: String,
    pub file_directory: String,
}

} // verus!
