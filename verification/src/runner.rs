//! The step interpreter's decisions.
//!
//! The I/O shell walks a test's steps in order and, for each, asks this
//! module what to do: skip it (platform gate), run a built-in under the step
//! timeout, or recurse into hydrated steps. The decisions — registry lookup,
//! argument binding, hydration, state transitions, the timeout failure — are
//! verified here; the shell only performs the I/O and reports the outcome.

use vstd::prelude::*;

use crate::civilization::Civilization;
use crate::definitions::{AssertionTag, InstructionTag, RetrieverTag};
use crate::errors::{ToolproofInputError, ToolproofStepError, ToolproofTestFailure};
use crate::json::JsonValue;
use crate::platforms::{spec_platform_matches, HostPlatform, ToolproofPlatform};
use crate::segments::{SegmentArgs, ToolproofSegments};
use crate::text::{extend_str, push_decimal, spec_decimal, string_from_chars};
use crate::universe::{reg_keys, spec_lookup, Universe};
use crate::{step_view, steps_view, StepView, ToolproofTestStep, ToolproofTestStepState};

verus! {

/// Copy a list of steps, preserving every view.
#[verifier::loop_isolation(false)]
pub fn clone_steps(steps: &Vec<ToolproofTestStep>) -> (r: Vec<ToolproofTestStep>)
    ensures
        steps_view(r@) == steps_view(steps@),
    decreases *steps,
{
    broadcast use
        vstd::std_specs::vec::axiom_vec_index_decreases,
        vstd::std_specs::vec::axiom_vec_decreases_to_view,
        vstd::seq::axiom_seq_index_decreases;

    let mut out: Vec<ToolproofTestStep> = Vec::new();
    let mut i: usize = 0;
    while i < steps.len()
        invariant
            i <= steps@.len(),
            out@.len() == i,
            forall|j: int| 0 <= j < i ==> step_view(#[trigger] out@[j]) == step_view(steps@[j]),
        decreases steps@.len() - i,
    {
        proof {
            assert(decreases_to!(*steps => steps@));
            assert(decreases_to!(steps@ => steps@[i as int]));
        }
        out.push(clone_step(&steps[i]));
        i += 1;
    }
    proof {
        crate::lemma_steps_view(out@);
        crate::lemma_steps_view(steps@);
        assert forall|j: int| 0 <= j < steps@.len() implies steps_view(out@)[j] == steps_view(
            steps@,
        )[j] by {
            assert(step_view(out@[j]) == step_view(steps@[j]));
        }
        assert(steps_view(out@) =~= steps_view(steps@));
    }
    out
}

/// Copy one step, preserving its view.
#[verifier::loop_isolation(false)]
pub fn clone_step(step: &ToolproofTestStep) -> (r: ToolproofTestStep)
    ensures
        step_view(r) == step_view(*step),
    decreases *step,
{
    broadcast use
        vstd::std_specs::vec::axiom_vec_index_decreases,
        vstd::std_specs::vec::axiom_vec_decreases_to_view,
        vstd::seq::axiom_seq_index_decreases;

    match step {
        ToolproofTestStep::Ref { other_file, orig, hydrated_steps, state, platforms } => {
            let hydrated: Option<Vec<ToolproofTestStep>> = match hydrated_steps {
                Option::Some(sub) => {
                    proof {
                        assert(decreases_to!(*step => step->Ref_hydrated_steps));
                        assert(decreases_to!(step->Ref_hydrated_steps => step->Ref_hydrated_steps->Some_0));
                    }
                    Option::Some(clone_steps(sub))
                },
                Option::None => Option::None,
            };
            ToolproofTestStep::Ref {
                other_file: other_file.clone(),
                orig: orig.clone(),
                hydrated_steps: hydrated,
                state: *state,
                platforms: clone_platforms(platforms),
            }
        },
        ToolproofTestStep::Macro { step_macro, args, orig, hydrated_steps, state, platforms } => {
            let hydrated: Option<Vec<ToolproofTestStep>> = match hydrated_steps {
                Option::Some(sub) => {
                    proof {
                        assert(decreases_to!(*step => step->Macro_hydrated_steps));
                        assert(decreases_to!(step->Macro_hydrated_steps => step->Macro_hydrated_steps->Some_0));
                    }
                    Option::Some(clone_steps(sub))
                },
                Option::None => Option::None,
            };
            ToolproofTestStep::Macro {
                step_macro: step_macro.clone(),
                args: clone_args(args),
                orig: orig.clone(),
                hydrated_steps: hydrated,
                state: *state,
                platforms: clone_platforms(platforms),
            }
        },
        ToolproofTestStep::Instruction { step: seg, args, orig, state, platforms } => {
            ToolproofTestStep::Instruction {
                step: seg.clone(),
                args: clone_args(args),
                orig: orig.clone(),
                state: *state,
                platforms: clone_platforms(platforms),
            }
        },
        ToolproofTestStep::Assertion { retrieval, assertion, args, orig, state, platforms } => {
            ToolproofTestStep::Assertion {
                retrieval: retrieval.clone(),
                assertion: assertion.clone(),
                args: clone_args(args),
                orig: orig.clone(),
                state: *state,
                platforms: clone_platforms(platforms),
            }
        },
        ToolproofTestStep::Snapshot { snapshot, snapshot_content, args, orig, state, platforms } => {
            ToolproofTestStep::Snapshot {
                snapshot: snapshot.clone(),
                snapshot_content: match snapshot_content {
                    Option::Some(s) => Option::Some(s.clone()),
                    Option::None => Option::None,
                },
                args: clone_args(args),
                orig: orig.clone(),
                state: *state,
                platforms: clone_platforms(platforms),
            }
        },
        ToolproofTestStep::Extract { extract, extract_location, args, orig, state, platforms } => {
            ToolproofTestStep::Extract {
                extract: extract.clone(),
                extract_location: extract_location.clone(),
                args: clone_args(args),
                orig: orig.clone(),
                state: *state,
                platforms: clone_platforms(platforms),
            }
        },
    }
}

/// Copy a step's named arguments, preserving every view.
fn clone_args(args: &crate::StepArgs) -> (r: crate::StepArgs)
    ensures
        crate::json::json_view_entries(r@) == crate::json::json_view_entries(args@),
{
    let mut out: crate::StepArgs = Vec::new();
    let mut i: usize = 0;
    while i < args.len()
        invariant
            i <= args@.len(),
            out@.len() == i,
            forall|j: int|
                0 <= j < i ==> (#[trigger] out@[j]).0@ == args@[j].0@ && out@[j].1@ == args@[j].1@,
        decreases args@.len() - i,
    {
        out.push((args[i].0.clone(), args[i].1.clone()));
        i += 1;
    }
    proof {
        crate::json::lemma_json_view_entries(out@);
        crate::json::lemma_json_view_entries(args@);
        assert forall|j: int| 0 <= j < args@.len() implies crate::json::json_view_entries(out@)[j]
            == crate::json::json_view_entries(args@)[j] by {
            assert(out@[j].0@ == args@[j].0@ && out@[j].1@ == args@[j].1@);
        }
        assert(crate::json::json_view_entries(out@) =~= crate::json::json_view_entries(args@));
    }
    out
}

/// Copy a platform gate.
fn clone_platforms(p: &Option<Vec<ToolproofPlatform>>) -> (r: Option<Vec<ToolproofPlatform>>)
    ensures
        crate::platforms_view(r) == crate::platforms_view(*p),
{
    match p {
        Option::Some(list) => {
            let mut out: Vec<ToolproofPlatform> = Vec::new();
            let mut i: usize = 0;
            while i < list.len()
                invariant
                    i <= list@.len(),
                    out@ == list@.take(i as int),
                decreases list@.len() - i,
            {
                out.push(list[i]);
                proof {
                    assert(out@ =~= list@.take(i + 1));
                }
                i += 1;
            }
            proof {
                assert(out@ =~= list@);
            }
            Option::Some(out)
        },
        Option::None => Option::None,
    }
}

/// The failure a step earns when its body outlives the configured timeout.
pub fn timeout_failure(timeout_secs: u64) -> (r: ToolproofStepError)
    ensures
        r matches ToolproofStepError::Assertion(ToolproofTestFailure::Custom { msg }) && msg@
            == "Step timed out after "@ + spec_decimal(timeout_secs as int) + "s"@,
{
    let mut msg: Vec<char> = Vec::new();
    extend_str(&mut msg, "Step timed out after ");
    push_decimal(&mut msg, timeout_secs);
    extend_str(&mut msg, "s");
    proof {
        assert(msg@ =~= "Step timed out after "@ + spec_decimal(timeout_secs as int) + "s"@);
    }
    ToolproofStepError::Assertion(
        ToolproofTestFailure::Custom { msg: string_from_chars(&msg) },
    )
}

/// Set a step's state, leaving everything else as it is.
pub fn set_step_state(step: &mut ToolproofTestStep, state: ToolproofTestStepState)
    ensures
        final(step)@.state() == state,
        states_equal_but_state(old(step)@, final(step)@),
{
    match step {
        ToolproofTestStep::Ref { state: s, .. } => {
            *s = state;
        },
        ToolproofTestStep::Macro { state: s, .. } => {
            *s = state;
        },
        ToolproofTestStep::Instruction { state: s, .. } => {
            *s = state;
        },
        ToolproofTestStep::Assertion { state: s, .. } => {
            *s = state;
        },
        ToolproofTestStep::Snapshot { state: s, .. } => {
            *s = state;
        },
        ToolproofTestStep::Extract { state: s, .. } => {
            *s = state;
        },
    }
}

/// Whether two step views agree on everything but their state.
pub open spec fn states_equal_but_state(a: StepView, b: StepView) -> bool {
    match (a, b) {
        (
            StepView::Ref { other_file: f1, orig: o1, hydrated_steps: h1, platforms: p1, .. },
            StepView::Ref { other_file: f2, orig: o2, hydrated_steps: h2, platforms: p2, .. },
        ) => f1 == f2 && o1 == o2 && h1 == h2 && p1 == p2,
        (
            StepView::Macro {
                step_macro: m1,
                args: a1,
                orig: o1,
                hydrated_steps: h1,
                platforms: p1,
                ..
            },
            StepView::Macro {
                step_macro: m2,
                args: a2,
                orig: o2,
                hydrated_steps: h2,
                platforms: p2,
                ..
            },
        ) => m1 == m2 && a1 == a2 && o1 == o2 && h1 == h2 && p1 == p2,
        (
            StepView::Instruction { step: s1, args: a1, orig: o1, platforms: p1, .. },
            StepView::Instruction { step: s2, args: a2, orig: o2, platforms: p2, .. },
        ) => s1 == s2 && a1 == a2 && o1 == o2 && p1 == p2,
        (
            StepView::Assertion { retrieval: r1, assertion: s1, args: a1, orig: o1, platforms: p1, .. },
            StepView::Assertion { retrieval: r2, assertion: s2, args: a2, orig: o2, platforms: p2, .. },
        ) => r1 == r2 && s1 == s2 && a1 == a2 && o1 == o2 && p1 == p2,
        (
            StepView::Snapshot {
                snapshot: s1,
                snapshot_content: c1,
                args: a1,
                orig: o1,
                platforms: p1,
                ..
            },
            StepView::Snapshot {
                snapshot: s2,
                snapshot_content: c2,
                args: a2,
                orig: o2,
                platforms: p2,
                ..
            },
        ) => s1 == s2 && c1 == c2 && a1 == a2 && o1 == o2 && p1 == p2,
        (
            StepView::Extract {
                extract: e1,
                extract_location: l1,
                args: a1,
                orig: o1,
                platforms: p1,
                ..
            },
            StepView::Extract {
                extract: e2,
                extract_location: l2,
                args: a2,
                orig: o2,
                platforms: p2,
                ..
            },
        ) => e1 == e2 && l1 == l2 && a1 == a2 && o1 == o2 && p1 == p2,
        _ => false,
    }
}

/// Platform gating, verified end to end: a step gated away from the host is
/// marked skipped and nothing is handed to the shell to execute; the step is
/// otherwise untouched.
pub fn gate_step(step: &mut ToolproofTestStep, host: HostPlatform) -> (skipped: bool)
    ensures
        states_equal_but_state(old(step)@, final(step)@),
        skipped == !spec_platform_matches(old(step)@.platforms(), host),
        skipped ==> final(step)@.state() == ToolproofTestStepState::Skipped,
        !skipped ==> final(step)@.state() == old(step)@.state(),
{
    let matches_host = match step {
        ToolproofTestStep::Ref { platforms, .. } => crate::platforms::platform_matches(
            platforms,
            host,
        ),
        ToolproofTestStep::Macro { platforms, .. } => crate::platforms::platform_matches(
            platforms,
            host,
        ),
        ToolproofTestStep::Instruction { platforms, .. } => crate::platforms::platform_matches(
            platforms,
            host,
        ),
        ToolproofTestStep::Assertion { platforms, .. } => crate::platforms::platform_matches(
            platforms,
            host,
        ),
        ToolproofTestStep::Snapshot { platforms, .. } => crate::platforms::platform_matches(
            platforms,
            host,
        ),
        ToolproofTestStep::Extract { platforms, .. } => crate::platforms::platform_matches(
            platforms,
            host,
        ),
    };
    if !matches_host {
        set_step_state(step, ToolproofTestStepState::Skipped);
        true
    } else {
        false
    }
}

/// A step that matched no registered pattern.
pub fn nonexistent_step_error() -> (r: ToolproofStepError)
    ensures
        r matches ToolproofStepError::External(ToolproofInputError::NonexistentStep),
{
    ToolproofStepError::External(ToolproofInputError::NonexistentStep)
}

/// What looking up one half of a step and binding its arguments yields: the
/// missing-step error exactly when no registered key equals the user step;
/// otherwise the found entry's tag beside arguments bound per [`spec_bind`]
/// against the found template, with the placeholder state assembled from the
/// configuration, the sandbox directory and the calling macro's frame — or
/// the binding error, passed through.
pub open spec fn spec_prepared<T>(
    entries: Seq<(ToolproofSegments, T)>,
    ctx: crate::options::ToolproofContext,
    tmp_dir: Option<String>,
    transient: Option<Vec<(String, String)>>,
    step: &ToolproofSegments,
    args: &crate::StepArgs,
    r: Result<(T, SegmentArgs), ToolproofStepError>,
) -> bool {
    match spec_lookup(reg_keys(entries), step@) {
        Option::None => r matches Result::Err(ToolproofStepError::External(
            ToolproofInputError::NonexistentStep,
        )),
        Option::Some(j) => match crate::segments::spec_bind(
            entries[j].0@,
            step@,
            crate::json::json_view_entries(args@),
            0,
        ) {
            Result::Err(var) => r matches Result::Err(ToolproofStepError::External(
                ToolproofInputError::NonexistentArgument { arg, has },
            )) && arg@ == var && has@ == crate::segments::spec_has_args(
                Seq::new(args@.len(), |i: int| args@[i].0@),
            ),
            Result::Ok(bound) => r matches Result::Ok(p) && {
                &&& p.0 == entries[j].1
                &&& p.1.args_view() == bound
                &&& p.1.placeholder_delim@ == ctx.params.placeholder_delimiter@
                &&& forall|name: Seq<char>|
                    #[trigger] crate::civilization::env_lookup(p.1.placeholders@, name)
                        == crate::segments::spec_effective_placeholder(
                        Option::Some(ctx),
                        tmp_dir,
                        transient,
                        name,
                    )
            },
        },
    }
}

/// The transient frame as a spec value.
pub open spec fn transient_view(t: Option<&Vec<(String, String)>>) -> Option<
    Vec<(String, String)>,
> {
    match t {
        Option::Some(f) => Option::Some(*f),
        Option::None => Option::None,
    }
}

/// Look up an instruction step and bind its arguments.
pub fn prepare_instruction(
    universe: &Universe,
    civ: &Civilization,
    transient: Option<&Vec<(String, String)>>,
    step: &ToolproofSegments,
    args: &crate::StepArgs,
) -> (r: Result<(InstructionTag, SegmentArgs), ToolproofStepError>)
    ensures
        spec_prepared(
            universe.instructions.entries@,
            universe.ctx,
            civ.tmp_dir,
            transient_view(transient),
            step,
            args,
            r,
        ),
{
    let found = match universe.instructions.get_key_value(step) {
        Option::Some(kv) => kv,
        Option::None => {
            return Result::Err(nonexistent_step_error());
        },
    };
    let (reference, tag) = found;
    proof {
        crate::universe::lemma_lookup_from(reg_keys(universe.instructions.entries@), step@, 0);
    }
    match SegmentArgs::build(
        reference,
        step,
        args,
        Option::Some(&universe.ctx),
        civ.tmp_dir.as_ref(),
        transient,
    ) {
        Result::Ok(bound) => Result::Ok((*tag, bound)),
        Result::Err(e) => Result::Err(ToolproofStepError::External(e)),
    }
}

/// Look up a retriever step and bind its arguments.
pub fn prepare_retrieval(
    universe: &Universe,
    civ: &Civilization,
    transient: Option<&Vec<(String, String)>>,
    step: &ToolproofSegments,
    args: &crate::StepArgs,
) -> (r: Result<(RetrieverTag, SegmentArgs), ToolproofStepError>)
    ensures
        spec_prepared(
            universe.retrievers.entries@,
            universe.ctx,
            civ.tmp_dir,
            transient_view(transient),
            step,
            args,
            r,
        ),
{
    let found = match universe.retrievers.get_key_value(step) {
        Option::Some(kv) => kv,
        Option::None => {
            return Result::Err(nonexistent_step_error());
        },
    };
    let (reference, tag) = found;
    proof {
        crate::universe::lemma_lookup_from(reg_keys(universe.retrievers.entries@), step@, 0);
    }
    match SegmentArgs::build(
        reference,
        step,
        args,
        Option::Some(&universe.ctx),
        civ.tmp_dir.as_ref(),
        transient,
    ) {
        Result::Ok(bound) => Result::Ok((*tag, bound)),
        Result::Err(e) => Result::Err(ToolproofStepError::External(e)),
    }
}

/// Look up the assertion half of a step and bind its arguments.
pub fn prepare_assertion(
    universe: &Universe,
    civ: &Civilization,
    transient: Option<&Vec<(String, String)>>,
    assertion: &ToolproofSegments,
    args: &crate::StepArgs,
) -> (r: Result<(AssertionTag, SegmentArgs), ToolproofStepError>)
    ensures
        spec_prepared(
            universe.assertions.entries@,
            universe.ctx,
            civ.tmp_dir,
            transient_view(transient),
            assertion,
            args,
            r,
        ),
{
    let found = match universe.assertions.get_key_value(assertion) {
        Option::Some(kv) => kv,
        Option::None => {
            return Result::Err(nonexistent_step_error());
        },
    };
    let (reference, tag) = found;
    proof {
        crate::universe::lemma_lookup_from(reg_keys(universe.assertions.entries@), assertion@, 0);
    }
    match SegmentArgs::build(
        reference,
        assertion,
        args,
        Option::Some(&universe.ctx),
        civ.tmp_dir.as_ref(),
        transient,
    ) {
        Result::Ok(bound) => Result::Ok((*tag, bound)),
        Result::Err(e) => Result::Err(ToolproofStepError::External(e)),
    }
}

/// The `expected` argument of an assertion, placeholder-expanded, if bound.
pub open spec fn spec_expected_of(bound: SegmentArgs) -> Option<crate::json::JsonView> {
    match crate::segments::args_lookup(bound.args_view(), "expected"@) {
        Option::Some(v) => Option::Some(
            crate::segments::expand_value(v, bound.placeholder_delim@, bound.phs_view()),
        ),
        Option::None => Option::None,
    }
}

/// The missing-`expected` error an assertion that takes a value reports.
pub open spec fn spec_missing_expected(bound: SegmentArgs, r: Result<(), ToolproofStepError>) -> bool {
    r matches Result::Err(ToolproofStepError::External(
        ToolproofInputError::NonexistentArgument { arg, has },
    )) && arg@ == "expected"@ && has@ == crate::segments::spec_has_args(
        Seq::new(bound.args@.len(), |i: int| bound.args@[i].0@),
    )
}

/// Run a prepared assertion on the retrieved value: every built-in assertion
/// is pure, so the whole second half of an assertion step happens here. The
/// outcome is the found tag's judgement of the base value against the
/// placeholder-expanded `expected` argument, the sandbox untouched.
pub fn run_assertion(
    tag: AssertionTag,
    bound: &SegmentArgs,
    base_value: &JsonValue,
    civ: &mut Civilization,
) -> (r: Result<(), ToolproofStepError>)
    ensures
        *final(civ) == *old(civ),
        match tag {
            AssertionTag::Exactly => match spec_expected_of(*bound) {
                Option::None => spec_missing_expected(*bound, r),
                Option::Some(e) => (r is Ok <==> base_value@ == e) && (r matches Result::Err(x)
                    ==> x matches ToolproofStepError::Assertion(ToolproofTestFailure::Custom {
                    msg,
                }) && msg@ == "The value\n---\n"@ + crate::json::json_of(base_value@)
                    + "\n---\nshould be exactly the following value, but is not\n---\n"@
                    + crate::json::json_of(e) + "\n---"@),
            },
            AssertionTag::NotExactly => match spec_expected_of(*bound) {
                Option::None => spec_missing_expected(*bound, r),
                Option::Some(e) => (r is Ok <==> base_value@ != e) && (r matches Result::Err(x)
                    ==> x matches ToolproofStepError::Assertion(ToolproofTestFailure::Custom {
                    msg,
                }) && msg@ == "The value\n---\n"@ + crate::json::json_of(base_value@)
                    + "\n---\nshould be exactly the following value, but is not\n---\n"@
                    + crate::json::json_of(e) + "\n---"@),
            },
            AssertionTag::Contain => match spec_expected_of(*bound) {
                Option::None => spec_missing_expected(*bound, r),
                Option::Some(e) => match crate::definitions::assertions::spec_value_contains(
                    base_value@,
                    e,
                ) {
                    Option::Some(true) => r is Ok,
                    Option::Some(false) => r matches Result::Err(ToolproofStepError::Assertion(
                        ToolproofTestFailure::Custom { msg },
                    )) && msg@ == "The value\n---\n"@ + crate::json::json_of(base_value@)
                        + "\n---\ndoes not contain\n---\n"@ + crate::json::json_of(e)
                        + "\n---"@,
                    Option::None => r matches Result::Err(ToolproofStepError::Internal(
                        crate::errors::ToolproofInternalError::Custom { msg },
                    )) && msg@ == crate::definitions::assertions::unimplemented_comparison_msg(
                        base_value@,
                        e,
                    ),
                },
            },
            AssertionTag::NotContain => match spec_expected_of(*bound) {
                Option::None => spec_missing_expected(*bound, r),
                Option::Some(e) => match crate::definitions::assertions::spec_value_contains(
                    base_value@,
                    e,
                ) {
                    Option::Some(false) => r is Ok,
                    Option::Some(true) => r matches Result::Err(ToolproofStepError::Assertion(
                        ToolproofTestFailure::Custom { msg },
                    )) && msg@ == "The value\n---\n"@ + crate::json::json_of(base_value@)
                        + "\n---\nshould not contain the following value, but does\n---\n"@
                        + crate::json::json_of(e) + "\n---"@,
                    Option::None => r matches Result::Err(ToolproofStepError::Internal(
                        crate::errors::ToolproofInternalError::Custom { msg },
                    )) && msg@ == crate::definitions::assertions::unimplemented_comparison_msg(
                        base_value@,
                        e,
                    ),
                },
            },
            AssertionTag::Empty => (r is Ok
                <==> crate::definitions::assertions::spec_value_is_empty(base_value@)) && (r
                matches Result::Err(x) ==> x matches ToolproofStepError::Assertion(
                ToolproofTestFailure::Custom { msg },
            ) && msg@ == "The value should be empty, but was:\n---\n"@ + crate::json::json_of(
                base_value@,
            ) + "\n---"@),
            AssertionTag::NotEmpty => (r is Ok
                <==> !crate::definitions::assertions::spec_value_is_empty(base_value@)) && (r
                matches Result::Err(x) ==> x matches ToolproofStepError::Assertion(
                ToolproofTestFailure::Custom { msg },
            ) && msg@ == "The value should not be empty, but was an empty "@
                + crate::definitions::assertions::spec_value_type(base_value@) + " value"@),
        },
{
    match tag {
        AssertionTag::Exactly => {
            let expected = match bound.get_value("expected") {
                Result::Ok(v) => v,
                Result::Err(e) => {
                    return Result::Err(ToolproofStepError::External(e));
                },
            };
            crate::definitions::assertions::Exactly.run(base_value, &expected, civ)
        },
        AssertionTag::NotExactly => {
            let expected = match bound.get_value("expected") {
                Result::Ok(v) => v,
                Result::Err(e) => {
                    return Result::Err(ToolproofStepError::External(e));
                },
            };
            crate::definitions::assertions::NotExactly.run(base_value, &expected, civ)
        },
        AssertionTag::Contain => {
            let expected = match bound.get_value("expected") {
                Result::Ok(v) => v,
                Result::Err(e) => {
                    return Result::Err(ToolproofStepError::External(e));
                },
            };
            crate::definitions::assertions::Contain.run(base_value, &expected, civ)
        },
        AssertionTag::NotContain => {
            let expected = match bound.get_value("expected") {
                Result::Ok(v) => v,
                Result::Err(e) => {
                    return Result::Err(ToolproofStepError::External(e));
                },
            };
            crate::definitions::assertions::NotContain.run(base_value, &expected, civ)
        },
        AssertionTag::Empty => crate::definitions::assertions::Empty.run(base_value, civ),
        AssertionTag::NotEmpty => crate::definitions::assertions::NotEmpty.run(base_value, civ),
    }
}

/// Hydrate a reference step: the target file's steps are copied in, ready to
/// run under the target file's directory.
pub fn hydrate_ref(
    universe: &Universe,
    hydrated_steps: &mut Option<Vec<ToolproofTestStep>>,
    target_path: &str,
) -> (r: Option<String>)
    ensures
        match crate::universe::spec_test_index(universe.tests@, target_path@, 0) {
            Option::Some(j) => {
                &&& r matches Option::Some(dir)
                &&& dir@ == universe.tests@[j].1.file_directory@
                &&& (*final(hydrated_steps)) matches Option::Some(sub) && steps_view(sub@)
                    == steps_view(universe.tests@[j].1.steps@)
            },
            Option::None => r is None && *final(hydrated_steps) == *old(hydrated_steps),
        },
{
    match universe.get_test(target_path) {
        Option::Some(target) => {
            let copied = clone_steps(&target.steps);
            *hydrated_steps = Option::Some(copied);
            Option::Some(target.file_directory.clone())
        },
        Option::None => Option::None,
    }
}

/// The string a macro's frame binds a variable name to: the bound argument
/// under that name, placeholder-expanded — provided it is bound and expands
/// to a string.
pub open spec fn spec_frame_value(args: SegmentArgs, name: Seq<char>) -> Option<Seq<char>> {
    match crate::segments::args_lookup(args.args_view(), name) {
        Option::Some(v) => match crate::segments::expand_value(
            v,
            args.placeholder_delim@,
            args.phs_view(),
        ) {
            crate::json::JsonView::Str(s) => Option::Some(s),
            _ => Option::None,
        },
        Option::None => Option::None,
    }
}

/// The macro placeholder frame: each of the macro template's variable names
/// bound to its string value from the bound arguments, nothing else bound,
/// and an error exactly when some declared name is unbound or its expanded
/// value is not a string.
#[verifier::loop_isolation(false)]
pub fn macro_frame(names: &Vec<String>, args: &SegmentArgs) -> (r: Result<
    Vec<(String, String)>,
    ToolproofInputError,
>)
    ensures
        r matches Result::Ok(frame) ==> {
            &&& forall|i: int|
                0 <= i < names@.len() ==> spec_frame_value(*args, (#[trigger] names@[i])@) is Some
            &&& forall|i: int|
                0 <= i < names@.len() ==> crate::civilization::env_lookup(
                    frame@,
                    (#[trigger] names@[i])@,
                ) == spec_frame_value(*args, names@[i]@)
            &&& forall|n: Seq<char>|
                (#[trigger] crate::civilization::env_lookup(frame@, n)) is Some ==> exists|i: int|
                    0 <= i < names@.len() && names@[i]@ == n
        },
        r matches Result::Err(e) ==> (exists|i: int|
            0 <= i < names@.len() && spec_frame_value(*args, (#[trigger] names@[i])@) is None) && (
        e matches ToolproofInputError::NonexistentArgument { .. } || e
            matches ToolproofInputError::IncorrectArgumentType { .. }),
{
    let mut out: Vec<(String, String)> = Vec::new();
    let mut i: usize = 0;
    while i < names.len()
        invariant
            i <= names@.len(),
            forall|j: int|
                0 <= j < i ==> spec_frame_value(*args, (#[trigger] names@[j])@) is Some,
            forall|n: Seq<char>|
                #[trigger] crate::civilization::env_lookup(out@, n) == (if (exists|j: int|
                    0 <= j < i && (#[trigger] names@[j])@ == n) {
                    spec_frame_value(*args, n)
                } else {
                    Option::None
                }),
        decreases names@.len() - i,
    {
        match args.get_string(names[i].as_str()) {
            Result::Ok(value) => {
                let ghost before = out@;
                proof {
                    assert(spec_frame_value(*args, names@[i as int]@) == Option::Some(value@));
                }
                crate::civilization::set_pair(&mut out, names[i].clone(), value);
                proof {
                    assert forall|n: Seq<char>|
                        #[trigger] crate::civilization::env_lookup(out@, n) == (if (exists|j: int|
                            0 <= j < i + 1 && (#[trigger] names@[j])@ == n) {
                            spec_frame_value(*args, n)
                        } else {
                            Option::None
                        }) by {
                        if n == names@[i as int]@ {
                        } else {
                            assert(crate::civilization::env_lookup(out@, n)
                                == crate::civilization::env_lookup(before, n));
                        }
                    }
                }
            },
            Result::Err(e) => {
                proof {
                    assert(spec_frame_value(*args, names@[i as int]@) is None);
                }
                return Result::Err(e);
            },
        }
        i += 1;
    }
    Result::Ok(out)
}

} // verus!
