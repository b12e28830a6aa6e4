//! Rendering step traces: one line per step, its state as a glyph, nested
//! steps indented. Styling and printing happen at the program's edge.

use vstd::prelude::*;

use crate::text::{extend_str, string_from_chars};
use crate::{step_view, StepView, ToolproofTestStep, ToolproofTestStepState};

verus! {

/// How one step describes itself in logs and error traces.
pub open spec fn spec_step_display(s: StepView) -> Seq<char> {
    match s {
        StepView::Instruction { orig, .. } => orig,
        StepView::Assertion { orig, .. } => orig,
        StepView::Macro { orig, .. } => "run steps from macro: "@ + orig,
        StepView::Ref { orig, .. } => "run steps from file: "@ + orig,
        StepView::Snapshot { orig, .. } => "snapshot: "@ + orig,
        StepView::Extract { orig, .. } => "extract: "@ + orig,
    }
}

impl ToolproofTestStep {
    /// How this step describes itself in logs and error traces.
    pub fn display_string(&self) -> (r: String)
        ensures
            r@ == spec_step_display(self@),
    {
        let mut out: Vec<char> = Vec::new();
        match self {
            ToolproofTestStep::Instruction { orig, .. } => {
                extend_str(&mut out, orig.as_str());
            },
            ToolproofTestStep::Assertion { orig, .. } => {
                extend_str(&mut out, orig.as_str());
            },
            ToolproofTestStep::Macro { orig, .. } => {
                extend_str(&mut out, "run steps from macro: ");
                extend_str(&mut out, orig.as_str());
            },
            ToolproofTestStep::Ref { orig, .. } => {
                extend_str(&mut out, "run steps from file: ");
                extend_str(&mut out, orig.as_str());
            },
            ToolproofTestStep::Snapshot { orig, .. } => {
                extend_str(&mut out, "snapshot: ");
                extend_str(&mut out, orig.as_str());
            },
            ToolproofTestStep::Extract { orig, .. } => {
                extend_str(&mut out, "extract: ");
                extend_str(&mut out, orig.as_str());
            },
        }
        string_from_chars(&out)
    }
}

/// The glyph a step's state prints as.
pub open spec fn spec_state_glyph(state: ToolproofTestStepState) -> Seq<char> {
    match state {
        ToolproofTestStepState::Dormant => "\u{29b8} "@,
        ToolproofTestStepState::Skipped => "\u{229d} "@,
        ToolproofTestStepState::Failed => "\u{2718} "@,
        ToolproofTestStepState::Passed => "\u{2713} "@,
    }
}

/// One step's trace line: the state glyph and the step's description.
pub fn step_run_line(step: &ToolproofTestStep) -> (r: String)
    ensures
        r@ == spec_state_glyph(step@.state()) + spec_step_display(step@),
{
    let mut out: Vec<char> = Vec::new();
    match step.state() {
        ToolproofTestStepState::Dormant => {
            extend_str(&mut out, "\u{29b8} ");
        },
        ToolproofTestStepState::Skipped => {
            extend_str(&mut out, "\u{229d} ");
        },
        ToolproofTestStepState::Failed => {
            extend_str(&mut out, "\u{2718} ");
        },
        ToolproofTestStepState::Passed => {
            extend_str(&mut out, "\u{2713} ");
        },
    }
    let display = step.display_string();
    extend_str(&mut out, display.as_str());
    string_from_chars(&out)
}

} // verus!
