//! Parsing: the segment tokenizer and the step forms.
//!
//! A pattern string is scanned left to right in three modes: bare text, inside
//! a quoted value, inside a brace. A single or double quote opens a value and
//! only the same quote closes it; a brace opens a variable. The bare text
//! between tokens becomes lowercased literals. An unclosed quote or brace is
//! an error naming the delimiter that was expected.

use vstd::prelude::*;

use crate::errors::ToolproofInputError;
use crate::json::{JsonValue, JsonView};
use crate::segments::{SegView, ToolproofSegment, ToolproofSegments};
use crate::text::{chars_of, lower_of, lowercase, string_from_chars};

verus! {

/// The tokenizer's mode: in bare text, inside a quote (of the held kind), or
/// inside a brace.
#[derive(Debug, Clone, Copy, PartialEq, Eq, Structural)]
pub enum ParseMode {
    Bare,
    InQuote(char),
    InCurly,
}

/// Prepend a segment to a tokenizer outcome.
pub open spec fn seg_prepend(h: SegView, r: Result<Seq<SegView>, char>) -> Result<
    Seq<SegView>,
    char,
> {
    match r {
        Result::Ok(t) => Result::Ok(seq![h] + t),
        Result::Err(e) => Result::Err(e),
    }
}

/// Put already-emitted segments in front of a tokenizer outcome.
pub open spec fn seg_combine(pre: Seq<SegView>, r: Result<Seq<SegView>, char>) -> Result<
    Seq<SegView>,
    char,
> {
    match r {
        Result::Ok(t) => Result::Ok(pre + t),
        Result::Err(e) => Result::Err(e),
    }
}

proof fn lemma_combine_prepend(pre: Seq<SegView>, h: SegView, r: Result<Seq<SegView>, char>)
    ensures
        seg_combine(pre, seg_prepend(h, r)) == seg_combine(pre.push(h), r),
{
    match r {
        Result::Ok(t) => {
            assert(pre + (seq![h] + t) =~= pre.push(h) + t);
        },
        Result::Err(_) => {},
    }
}

/// The tokenizer from position `i`, where the current token's text began at
/// `start` and the mode says what is open. At the end of the input, bare mode
/// emits the trailing literal if it is non-empty; an open quote or brace is
/// an error carrying the closing delimiter that was expected.
pub open spec fn spec_parse_from(s: Seq<char>, i: int, start: int, mode: ParseMode) -> Result<
    Seq<SegView>,
    char,
>
    decreases s.len() - i,
{
    if i < 0 || i >= s.len() {
        match mode {
            ParseMode::Bare => {
                if start < s.len() {
                    Result::Ok(seq![SegView::Literal(lower_of(s.subrange(start, s.len() as int)))])
                } else {
                    Result::Ok(Seq::empty())
                }
            },
            ParseMode::InQuote(q) => Result::Err(q),
            ParseMode::InCurly => Result::Err('}'),
        }
    } else {
        let c = s[i];
        match mode {
            ParseMode::Bare => {
                if c == '"' || c == '\'' {
                    seg_prepend(
                        SegView::Literal(lower_of(s.subrange(start, i))),
                        spec_parse_from(s, i + 1, i + 1, ParseMode::InQuote(c)),
                    )
                } else if c == '{' {
                    seg_prepend(
                        SegView::Literal(lower_of(s.subrange(start, i))),
                        spec_parse_from(s, i + 1, i + 1, ParseMode::InCurly),
                    )
                } else {
                    spec_parse_from(s, i + 1, start, ParseMode::Bare)
                }
            },
            ParseMode::InQuote(q) => {
                if c == q {
                    seg_prepend(
                        SegView::Value(JsonView::Str(s.subrange(start, i))),
                        spec_parse_from(s, i + 1, i + 1, ParseMode::Bare),
                    )
                } else {
                    spec_parse_from(s, i + 1, start, ParseMode::InQuote(q))
                }
            },
            ParseMode::InCurly => {
                if c == '}' {
                    seg_prepend(
                        SegView::Variable(s.subrange(start, i)),
                        spec_parse_from(s, i + 1, i + 1, ParseMode::Bare),
                    )
                } else {
                    spec_parse_from(s, i + 1, start, ParseMode::InCurly)
                }
            },
        }
    }
}

/// What tokenizing a whole pattern string yields.
pub open spec fn spec_parse_segments(s: Seq<char>) -> Result<Seq<SegView>, char> {
    spec_parse_from(s, 0, 0, ParseMode::Bare)
}

/// The string of the characters `cs[a..b]`.
fn string_of_range(cs: &Vec<char>, a: usize, b: usize) -> (r: String)
    requires
        a <= b <= cs@.len(),
    ensures
        r@ == cs@.subrange(a as int, b as int),
{
    let mut out: Vec<char> = Vec::new();
    let mut i: usize = a;
    while i < b
        invariant
            a <= i <= b <= cs@.len(),
            out@ == cs@.subrange(a as int, i as int),
        decreases b - i,
    {
        out.push(cs[i]);
        proof {
            assert(cs@.subrange(a as int, i + 1) =~= cs@.subrange(a as int, i as int).push(
                cs@[i as int],
            ));
        }
        i += 1;
    }
    string_from_chars(&out)
}

/// Tokenize a pattern string into segments.
#[verifier::loop_isolation(false)]
pub fn parse_segments(s: &str) -> (r: Result<ToolproofSegments, ToolproofInputError>)
    ensures
        match r {
            Result::Ok(segs) => spec_parse_segments(s@) == Result::<Seq<SegView>, char>::Ok(segs@),
            Result::Err(e) => {
                &&& e matches ToolproofInputError::UnclosedValue { expected }
                &&& spec_parse_segments(s@) == Result::<Seq<SegView>, char>::Err(expected)
            },
        },
{
    let cs = chars_of(s);
    let n = cs.len();
    let mut acc: Vec<ToolproofSegment> = Vec::new();
    let mut start: usize = 0;
    let mut mode = ParseMode::Bare;
    let mut i: usize = 0;
    proof {
        assert(acc_views(acc@) =~= Seq::<SegView>::empty());
        assert(Seq::<SegView>::empty() + spec_parse_segments(s@)->Ok_0 =~= spec_parse_segments(
            s@,
        )->Ok_0);
    }
    while i < n
        invariant
            i <= n,
            start <= i,
            spec_parse_segments(s@) == seg_combine(
                acc_views(acc@),
                spec_parse_from(s@, i as int, start as int, mode),
            ),
        decreases n - i,
    {
        let c = cs[i];
        let ghost pre = acc_views(acc@);
        match mode {
            ParseMode::Bare => {
                if c == '"' || c == '\'' {
                    let lit = string_of_range(&cs, start, i);
                    let seg = ToolproofSegment::Literal(lowercase(lit.as_str()));
                    proof {
                        lemma_combine_prepend(
                            pre,
                            seg@,
                            spec_parse_from(s@, i + 1, i + 1, ParseMode::InQuote(c)),
                        );
                    }
                    acc.push(seg);
                    proof {
                        assert(acc_views(acc@) =~= pre.push(seg@));
                    }
                    mode = ParseMode::InQuote(c);
                    start = i + 1;
                } else if c == '{' {
                    let lit = string_of_range(&cs, start, i);
                    let seg = ToolproofSegment::Literal(lowercase(lit.as_str()));
                    proof {
                        lemma_combine_prepend(
                            pre,
                            seg@,
                            spec_parse_from(s@, i + 1, i + 1, ParseMode::InCurly),
                        );
                    }
                    acc.push(seg);
                    proof {
                        assert(acc_views(acc@) =~= pre.push(seg@));
                    }
                    mode = ParseMode::InCurly;
                    start = i + 1;
                }
            },
            ParseMode::InQuote(q) => {
                if c == q {
                    let body = string_of_range(&cs, start, i);
                    let seg = ToolproofSegment::Value(JsonValue::Str(body));
                    proof {
                        lemma_combine_prepend(
                            pre,
                            seg@,
                            spec_parse_from(s@, i + 1, i + 1, ParseMode::Bare),
                        );
                    }
                    acc.push(seg);
                    proof {
                        assert(acc_views(acc@) =~= pre.push(seg@));
                    }
                    mode = ParseMode::Bare;
                    start = i + 1;
                }
            },
            ParseMode::InCurly => {
                if c == '}' {
                    let body = string_of_range(&cs, start, i);
                    let seg = ToolproofSegment::Variable(body);
                    proof {
                        lemma_combine_prepend(
                            pre,
                            seg@,
                            spec_parse_from(s@, i + 1, i + 1, ParseMode::Bare),
                        );
                    }
                    acc.push(seg);
                    proof {
                        assert(acc_views(acc@) =~= pre.push(seg@));
                    }
                    mode = ParseMode::Bare;
                    start = i + 1;
                }
            },
        }
        i += 1;
    }
    match mode {
        ParseMode::Bare => {
            if start < n {
                let ghost pre = acc_views(acc@);
                let lit = string_of_range(&cs, start, n);
                let seg = ToolproofSegment::Literal(lowercase(lit.as_str()));
                acc.push(seg);
                proof {
                    assert(acc_views(acc@) =~= pre.push(seg@));
                    assert(pre + seq![seg@] =~= pre.push(seg@));
                }
            }
            let res = ToolproofSegments { segments: acc };
            proof {
                assert(res@ =~= acc_views(res.segments@));
                if start >= n {
                    assert(acc_views(res.segments@) + Seq::<SegView>::empty() =~= acc_views(
                        res.segments@,
                    ));
                }
            }
            Result::Ok(res)
        },
        ParseMode::InQuote(q) => Result::Err(ToolproofInputError::UnclosedValue { expected: q }),
        ParseMode::InCurly => Result::Err(ToolproofInputError::UnclosedValue { expected: '}' }),
    }
}

/// The views of a vector of segments, element by element.
pub open spec fn acc_views(v: Seq<ToolproofSegment>) -> Seq<SegView> {
    Seq::new(v.len(), |i: int| v[i]@)
}

/// The separator that splits a step into a retrieval and an assertion.
pub open spec fn should_sep() -> Seq<char> {
    seq![' ', 's', 'h', 'o', 'u', 'l', 'd', ' ']
}

/// What parsing one step string (with its supplied arguments) yields: a step
/// string containing ` should ` is bisected on the first occurrence into a
/// retrieval and an assertion; any other becomes an instruction. Either way
/// the new step is dormant and ungated, and a tokenizer error passes through.
pub open spec fn spec_parse_step(
    s: Seq<char>,
    args: crate::ArgsView,
    r: Result<crate::ToolproofTestStep, ToolproofInputError>,
) -> bool {
    match crate::text::spec_find(s, should_sep()) {
        Option::Some(k) => {
            let left = spec_parse_segments(s.subrange(0, k));
            let right = spec_parse_segments(
                s.subrange(k + should_sep().len(), s.len() as int),
            );
            match left {
                Result::Err(e) => r matches Result::Err(err) && (err
                    matches ToolproofInputError::UnclosedValue { expected } && expected == e),
                Result::Ok(rv) => match right {
                    Result::Err(e) => r matches Result::Err(err) && (err
                        matches ToolproofInputError::UnclosedValue { expected } && expected == e),
                    Result::Ok(av) => r matches Result::Ok(step) && step@
                        == (crate::StepView::Assertion {
                        retrieval: rv,
                        assertion: av,
                        args: args,
                        orig: s,
                        state: crate::ToolproofTestStepState::Dormant,
                        platforms: Option::None,
                    }),
                },
            }
        },
        Option::None => {
            match spec_parse_segments(s) {
                Result::Err(e) => r matches Result::Err(err) && (err
                    matches ToolproofInputError::UnclosedValue { expected } && expected == e),
                Result::Ok(sv) => r matches Result::Ok(step) && step@
                    == (crate::StepView::Instruction {
                    step: sv,
                    args: args,
                    orig: s,
                    state: crate::ToolproofTestStepState::Dormant,
                    platforms: Option::None,
                }),
            }
        },
    }
}

/// Parse one step string, splitting a retrieval from an assertion on the
/// first ` should `.
pub fn parse_step(step: String, args: crate::StepArgs) -> (r: Result<
    crate::ToolproofTestStep,
    ToolproofInputError,
>)
    ensures
        spec_parse_step(step@, crate::json::json_view_entries(args@), r),
{
    let cs = chars_of(step.as_str());
    let sep: Vec<char> = vec![' ', 's', 'h', 'o', 'u', 'l', 'd', ' '];
    proof {
        assert(sep@ =~= should_sep());
    }
    match crate::text::find_chars(&cs, &sep) {
        Option::Some(k) => {
            let n = cs.len();
            proof {
                crate::text::lemma_find_from(cs@, sep@, 0);
                assert(crate::text::occurs_at(cs@, sep@, k as int));
                assert(sep@.len() == 8);
                assert(k + 8 <= n);
            }
            let left = string_of_range(&cs, 0, k);
            let right = string_of_range(&cs, k + 8, n);
            let retrieval = match parse_segments(left.as_str()) {
                Result::Ok(v) => v,
                Result::Err(e) => {
                    return Result::Err(e);
                },
            };
            let assertion = match parse_segments(right.as_str()) {
                Result::Ok(v) => v,
                Result::Err(e) => {
                    return Result::Err(e);
                },
            };
            Result::Ok(
                crate::ToolproofTestStep::Assertion {
                    retrieval,
                    assertion,
                    args,
                    orig: step,
                    state: crate::ToolproofTestStepState::Dormant,
                    platforms: Option::None,
                },
            )
        },
        Option::None => {
            let parsed = match parse_segments(step.as_str()) {
                Result::Ok(v) => v,
                Result::Err(e) => {
                    return Result::Err(e);
                },
            };
            Result::Ok(
                crate::ToolproofTestStep::Instruction {
                    step: parsed,
                    args,
                    orig: step,
                    state: crate::ToolproofTestStepState::Dormant,
                    platforms: Option::None,
                },
            )
        },
    }
}

/// One step as it stands in a test document, before the pattern strings are
/// tokenized. The I/O shell deserializes the document and hands these in as
/// plain values.
#[derive(Debug)]
pub enum RawToolproofTestStep {
    /// `ref: path` — include another test file's steps.
    Ref { path: String },
    /// A bare string: an instruction, or an assertion when it contains
    /// ` should `.
    BareStep(String),
    /// `step: ...` with named arguments beside it.
    StepWithParams { step: String, other: crate::StepArgs },
    /// `snapshot: ...` with named arguments beside it.
    Snapshot { snapshot: String, other: crate::StepArgs },
    /// `macro: ...` with named arguments beside it.
    StepMacro { step_macro: String, other: crate::StepArgs },
    /// `extract: ...` with the destination path and named arguments.
    Extract { extract: String, extract_location: String, other: crate::StepArgs },
}

/// What building a step from its raw form yields: each raw form becomes the
/// matching dormant, ungated step; a pattern that does not tokenize is the
/// only error.
pub open spec fn spec_from_raw(
    raw: RawToolproofTestStep,
    r: Result<crate::ToolproofTestStep, ToolproofInputError>,
) -> bool {
    match raw {
                RawToolproofTestStep::Ref { path } => r matches Result::Ok(step) && step@
                    == (crate::StepView::Ref {
                    other_file: path@,
                    orig: path@,
                    hydrated_steps: Option::None,
                    state: crate::ToolproofTestStepState::Dormant,
                    platforms: Option::None,
                }),
                RawToolproofTestStep::BareStep(s) => spec_parse_step(s@, Seq::empty(), r),
                RawToolproofTestStep::StepWithParams { step, other } => spec_parse_step(
                    step@,
                    crate::json::json_view_entries(other@),
                    r,
                ),
                RawToolproofTestStep::Snapshot { snapshot, other } => {
                    match spec_parse_segments(snapshot@) {
                        Result::Err(e) => r matches Result::Err(err) && (err
                            matches ToolproofInputError::UnclosedValue { expected } && expected
                            == e),
                        Result::Ok(sv) => r matches Result::Ok(step) && step@
                            == (crate::StepView::Snapshot {
                            snapshot: sv,
                            snapshot_content: Option::None,
                            args: crate::json::json_view_entries(other@),
                            orig: snapshot@,
                            state: crate::ToolproofTestStepState::Dormant,
                            platforms: Option::None,
                        }),
                    }
                },
                RawToolproofTestStep::StepMacro { step_macro, other } => {
                    match spec_parse_segments(step_macro@) {
                        Result::Err(e) => r matches Result::Err(err) && (err
                            matches ToolproofInputError::UnclosedValue { expected } && expected
                            == e),
                        Result::Ok(sv) => r matches Result::Ok(step) && step@
                            == (crate::StepView::Macro {
                            step_macro: sv,
                            args: crate::json::json_view_entries(other@),
                            orig: step_macro@,
                            hydrated_steps: Option::None,
                            state: crate::ToolproofTestStepState::Dormant,
                            platforms: Option::None,
                        }),
                    }
                },
                RawToolproofTestStep::Extract { extract, extract_location, other } => {
                    match spec_parse_segments(extract@) {
                        Result::Err(e) => r matches Result::Err(err) && (err
                            matches ToolproofInputError::UnclosedValue { expected } && expected
                            == e),
                        Result::Ok(sv) => r matches Result::Ok(step) && step@
                            == (crate::StepView::Extract {
                            extract: sv,
                            extract_location: extract_location@,
                            args: crate::json::json_view_entries(other@),
                            orig: extract@,
                            state: crate::ToolproofTestStepState::Dormant,
                            platforms: Option::None,
                        }),
                    }
                },
    }
}

impl crate::ToolproofTestStep {
    /// Build a dormant, ungated step from its raw document form; a pattern
    /// that does not tokenize is the only error.
    pub fn from_raw(raw: RawToolproofTestStep) -> (r: Result<
        crate::ToolproofTestStep,
        ToolproofInputError,
    >)
        ensures
            spec_from_raw(raw, r),
    {
        match raw {
            RawToolproofTestStep::Ref { path } => {
                let orig = path.clone();
                Result::Ok(
                    crate::ToolproofTestStep::Ref {
                        other_file: path,
                        orig,
                        hydrated_steps: Option::None,
                        state: crate::ToolproofTestStepState::Dormant,
                        platforms: Option::None,
                    },
                )
            },
            RawToolproofTestStep::BareStep(s) => {
                let args: crate::StepArgs = Vec::new();
                proof {
                    assert(crate::json::json_view_entries(args@) =~= Seq::<
                        (Seq<char>, crate::json::JsonView),
                    >::empty());
                }
                parse_step(s, args)
            },
            RawToolproofTestStep::StepWithParams { step, other } => parse_step(step, other),
            RawToolproofTestStep::Snapshot { snapshot, other } => {
                let parsed = match parse_segments(snapshot.as_str()) {
                    Result::Ok(v) => v,
                    Result::Err(e) => {
                        return Result::Err(e);
                    },
                };
                Result::Ok(
                    crate::ToolproofTestStep::Snapshot {
                        snapshot: parsed,
                        snapshot_content: Option::None,
                        args: other,
                        orig: snapshot,
                        state: crate::ToolproofTestStepState::Dormant,
                        platforms: Option::None,
                    },
                )
            },
            RawToolproofTestStep::StepMacro { step_macro, other } => {
                let parsed = match parse_segments(step_macro.as_str()) {
                    Result::Ok(v) => v,
                    Result::Err(e) => {
                        return Result::Err(e);
                    },
                };
                Result::Ok(
                    crate::ToolproofTestStep::Macro {
                        step_macro: parsed,
                        args: other,
                        orig: step_macro,
                        hydrated_steps: Option::None,
                        state: crate::ToolproofTestStepState::Dormant,
                        platforms: Option::None,
                    },
                )
            },
            RawToolproofTestStep::Extract { extract, extract_location, other } => {
                let parsed = match parse_segments(extract.as_str()) {
                    Result::Ok(v) => v,
                    Result::Err(e) => {
                        return Result::Err(e);
                    },
                };
                Result::Ok(
                    crate::ToolproofTestStep::Extract {
                        extract: parsed,
                        extract_location,
                        args: other,
                        orig: extract,
                        state: crate::ToolproofTestStepState::Dormant,
                        platforms: Option::None,
                    },
                )
            },
        }
    }
}

/// The directory part of a slash-separated path: everything before the last
/// slash, or `.` when there is no slash.
pub open spec fn spec_parent_dir(p: Seq<char>) -> Seq<char> {
    if (exists|i: int| 0 <= i < p.len() && p[i] == '/') {
        let last = choose|i: int|
            0 <= i < p.len() && p[i] == '/' && (forall|j: int| i < j < p.len() ==> p[j] != '/');
        p.subrange(0, last)
    } else {
        seq!['.']
    }
}

/// The directory part of a slash-separated file path.
pub fn parent_dir(p: &str) -> (r: String)
    ensures
        r@ == spec_parent_dir(p@),
{
    let cs = chars_of(p);
    let n = cs.len();
    let mut k: usize = n;
    while k > 0
        invariant
            k <= n,
            n == cs@.len(),
            cs@ == p@,
            forall|j: int| k <= j < n ==> cs@[j] != '/',
        decreases k,
    {
        if cs[k - 1] == '/' {
            let r = string_of_range(&cs, 0, k - 1);
            proof {
                let last = (k - 1) as int;
                assert(0 <= last < p@.len() && p@[last] == '/' && (forall|j: int|
                    last < j < p@.len() ==> p@[j] != '/'));
                let w = choose|i: int|
                    0 <= i < p@.len() && p@[i] == '/' && (forall|j: int|
                        i < j < p@.len() ==> p@[j] != '/');
                assert(w == last);
            }
            return r;
        }
        k -= 1;
    }
    let mut dot: Vec<char> = Vec::new();
    dot.push('.');
    proof {
        assert(forall|i: int| 0 <= i < p@.len() ==> p@[i] != '/');
        assert(dot@ =~= seq!['.']);
    }
    string_from_chars(&dot)
}

/// Build a parsed test file from its raw document parts: steps are built in
/// order, the file kind defaults to a runnable test, line endings of the
/// source are normalized, and the file's directory is the path's parent.
#[verifier::loop_isolation(false)]
pub fn build_test_file(
    name: String,
    kind: Option<crate::ToolproofFileType>,
    platforms: Option<Vec<crate::platforms::ToolproofPlatform>>,
    raw_steps: Vec<RawToolproofTestStep>,
    source: &str,
    file_path: String,
) -> (r: Result<crate::ToolproofTestFile, ToolproofInputError>)
    ensures
        r matches Result::Ok(f) ==> {
            &&& f.name@ == name@
            &&& f.kind == (match kind {
                Option::Some(k) => k,
                Option::None => crate::ToolproofFileType::Test,
            })
            &&& crate::platforms_view(f.platforms) == crate::platforms_view(platforms)
            &&& f.original_source@ == crate::text::replaced(
                source@,
                seq!['\r', '\n'],
                seq!['\n'],
            )
            &&& f.file_path@ == file_path@
            &&& f.file_directory@ == spec_parent_dir(file_path@)
            &&& f.steps@.len() == raw_steps@.len()
            &&& forall|i: int|
                0 <= i < raw_steps@.len() ==> spec_from_raw(
                    raw_steps@[i],
                    Result::Ok(#[trigger] f.steps@[i]),
                )
            &&& f.failure_screenshot is None
        },
        r matches Result::Err(e) ==> exists|i: int|
            0 <= i < raw_steps@.len() && spec_from_raw(#[trigger] raw_steps@[i], Result::Err(e)),
{
    let ghost raws = raw_steps@;
    let mut steps: Vec<crate::ToolproofTestStep> = Vec::new();
    let mut remaining = raw_steps;
    while remaining.len() > 0
        invariant
            steps@.len() + remaining@.len() == raws.len(),
            remaining@ == raws.skip(steps@.len() as int),
            forall|i: int|
                0 <= i < steps@.len() ==> spec_from_raw(raws[i], Result::Ok(#[trigger] steps@[i])),
        decreases remaining@.len(),
    {
        let ghost done = steps@.len() as int;
        let raw = remaining.remove(0);
        proof {
            assert(raw == raws[done]);
            assert(remaining@ =~= raws.skip(done + 1));
        }
        match crate::ToolproofTestStep::from_raw(raw) {
            Result::Ok(step) => {
                steps.push(step);
            },
            Result::Err(e) => {
                proof {
                    assert(0 <= done < raws.len() && spec_from_raw(
                        raws[done],
                        Result::<crate::ToolproofTestStep, ToolproofInputError>::Err(e),
                    ));
                }
                return Result::Err(e);
            },
        }
    }
    let original_source = crate::platforms::normalize_line_endings(source);
    let file_directory = parent_dir(file_path.as_str());
    Result::Ok(
        crate::ToolproofTestFile {
            name,
            kind: match kind {
                Option::Some(k) => k,
                Option::None => crate::ToolproofFileType::Test,
            },
            platforms,
            steps,
            original_source,
            file_path,
            file_directory,
            failure_screenshot: Option::None,
        },
    )
}

/// Build a parsed macro file from its raw document parts. The pattern is
/// tokenized and must hold no quoted value.
#[verifier::loop_isolation(false)]
pub fn build_macro_file(
    macro_text: String,
    raw_steps: Vec<RawToolproofTestStep>,
    source: &str,
    file_path: String,
) -> (r: Result<crate::ToolproofMacroFile, ToolproofInputError>)
    ensures
        r matches Result::Ok(f) ==> {
            &&& spec_parse_segments(macro_text@) == Result::<Seq<SegView>, char>::Ok(
                f.macro_segments@,
            )
            &&& f.macro_orig@ == macro_text@
            &&& f.file_path@ == file_path@
            &&& f.file_directory@ == spec_parent_dir(file_path@)
            &&& f.steps@.len() == raw_steps@.len()
            &&& forall|i: int|
                0 <= i < raw_steps@.len() ==> spec_from_raw(
                    raw_steps@[i],
                    Result::Ok(#[trigger] f.steps@[i]),
                )
        },
        r matches Result::Err(e) ==> (spec_parse_segments(macro_text@) matches Result::Err(c)
            && (e matches ToolproofInputError::UnclosedValue { expected } && expected == c)) || (
        exists|i: int|
            0 <= i < raw_steps@.len() && spec_from_raw(#[trigger] raw_steps@[i], Result::Err(e))),
{
    let macro_segments = match parse_segments(macro_text.as_str()) {
        Result::Ok(v) => v,
        Result::Err(e) => {
            return Result::Err(e);
        },
    };
    let ghost raws = raw_steps@;
    let mut steps: Vec<crate::ToolproofTestStep> = Vec::new();
    let mut remaining = raw_steps;
    while remaining.len() > 0
        invariant
            steps@.len() + remaining@.len() == raws.len(),
            remaining@ == raws.skip(steps@.len() as int),
            forall|i: int|
                0 <= i < steps@.len() ==> spec_from_raw(raws[i], Result::Ok(#[trigger] steps@[i])),
        decreases remaining@.len(),
    {
        let ghost done = steps@.len() as int;
        let raw = remaining.remove(0);
        proof {
            assert(raw == raws[done]);
            assert(remaining@ =~= raws.skip(done + 1));
        }
        match crate::ToolproofTestStep::from_raw(raw) {
            Result::Ok(step) => {
                steps.push(step);
            },
            Result::Err(e) => {
                proof {
                    assert(0 <= done < raws.len() && spec_from_raw(
                        raws[done],
                        Result::<crate::ToolproofTestStep, ToolproofInputError>::Err(e),
                    ));
                }
                return Result::Err(e);
            },
        }
    }
    let original_source = crate::platforms::normalize_line_endings(source);
    let file_directory = parent_dir(file_path.as_str());
    Result::Ok(
        crate::ToolproofMacroFile {
            macro_segments,
            macro_orig: macro_text,
            steps,
            original_source,
            file_path,
            file_directory,
        },
    )
}


/// What parsing promises the runner: every step starts dormant. A failure
/// mid-test aborts the walk, so the steps the runner never reaches keep
/// exactly this parsed state.
pub proof fn lemma_parsed_step_dormant(raw: RawToolproofTestStep, step: crate::ToolproofTestStep)
    requires
        spec_from_raw(raw, Result::Ok(step)),
    ensures
        step@.state() == crate::ToolproofTestStepState::Dormant,
{
}

} // verus!
