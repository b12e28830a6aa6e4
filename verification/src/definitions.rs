//! The built-in step definitions.
//!
//! Each definition owns a pattern (its `segments`) and a tag; the three
//! registries map patterns to tags, and the runner dispatches on the tag.
//! The definitions whose work is pure — the assertions, the environment and
//! output steps, the argument handling of the rest — run here; what needs a
//! process, the filesystem, a socket or the browser is described by the
//! values these functions return and performed at the program's edge.

pub mod assertions;
pub mod browser;
pub mod filesystem;
pub mod hosting;
pub mod process;

use vstd::prelude::*;

use crate::errors::ToolproofInputError;
use crate::parser::parse_segments;
use crate::universe::Registry;

verus! {

/// The built-in instructions.
#[derive(Debug, Clone, Copy, PartialEq, Eq, Structural)]
pub enum InstructionTag {
    NewFile,
    EnvVar,
    Run,
    FailingRun,
    LoadPage,
    EvalJs,
    ScreenshotViewport,
    ScreenshotElement,
    ClickText,
    HoverText,
    ClickSelector,
    HoverSelector,
    PressKey,
    TypeText,
    HostDir,
    DebugHostDir,
}

/// The built-in retrievers.
#[derive(Debug, Clone, Copy, PartialEq, Eq, Structural)]
pub enum RetrieverTag {
    PlainFile,
    StdOut,
    StdErr,
    GetJs,
    GetConsole,
}

/// The built-in assertions.
#[derive(Debug, Clone, Copy, PartialEq, Eq, Structural)]
pub enum AssertionTag {
    Contain,
    NotContain,
    Exactly,
    NotExactly,
    Empty,
    NotEmpty,
}

/// The built-in patterns and their tags, in registration order.
pub open spec fn builtin_instruction(i: int) -> (Seq<char>, InstructionTag) {
    if i == 0 {
        ("I have a {filename} file with the content {contents}"@, InstructionTag::NewFile)
    } else if i == 1 {
        ("I have the environment variable {name} set to {value}"@, InstructionTag::EnvVar)
    } else if i == 2 {
        ("I run {command}"@, InstructionTag::Run)
    } else if i == 3 {
        ("I run {command} and expect it to fail"@, InstructionTag::FailingRun)
    } else if i == 4 {
        ("In my browser, I load {url}"@, InstructionTag::LoadPage)
    } else if i == 5 {
        ("In my browser, I evaluate {js}"@, InstructionTag::EvalJs)
    } else if i == 6 {
        ("In my browser, I screenshot the viewport to {filepath}"@, InstructionTag::ScreenshotViewport)
    } else if i == 7 {
        ("In my browser, I screenshot the element {selector} to {filepath}"@, InstructionTag::ScreenshotElement)
    } else if i == 8 {
        ("In my browser, I click {text}"@, InstructionTag::ClickText)
    } else if i == 9 {
        ("In my browser, I hover {text}"@, InstructionTag::HoverText)
    } else if i == 10 {
        ("In my browser, I click the selector {selector}"@, InstructionTag::ClickSelector)
    } else if i == 11 {
        ("In my browser, I hover the selector {selector}"@, InstructionTag::HoverSelector)
    } else if i == 12 {
        ("In my browser, I press the {keyname} key"@, InstructionTag::PressKey)
    } else if i == 13 {
        ("In my browser, I type {text}"@, InstructionTag::TypeText)
    } else if i == 14 {
        ("I serve the directory {dir}"@, InstructionTag::HostDir)
    } else {
        ("I serve the directory {dir} and debug"@, InstructionTag::DebugHostDir)
    }
}

/// The built-in patterns and their tags, in registration order.
pub open spec fn builtin_retriever(i: int) -> (Seq<char>, RetrieverTag) {
    if i == 0 {
        ("The file {filename}"@, RetrieverTag::PlainFile)
    } else if i == 1 {
        ("stdout"@, RetrieverTag::StdOut)
    } else if i == 2 {
        ("stderr"@, RetrieverTag::StdErr)
    } else if i == 3 {
        ("In my browser, the result of {js}"@, RetrieverTag::GetJs)
    } else {
        ("In my browser, the console"@, RetrieverTag::GetConsole)
    }
}

/// The built-in patterns and their tags, in registration order.
pub open spec fn builtin_assertion(i: int) -> (Seq<char>, AssertionTag) {
    if i == 0 {
        ("be exactly {expected}"@, AssertionTag::Exactly)
    } else if i == 1 {
        ("not be exactly {expected}"@, AssertionTag::NotExactly)
    } else if i == 2 {
        ("contain {expected}"@, AssertionTag::Contain)
    } else if i == 3 {
        ("not contain {expected}"@, AssertionTag::NotContain)
    } else if i == 4 {
        ("be empty"@, AssertionTag::Empty)
    } else {
        ("not be empty"@, AssertionTag::NotEmpty)
    }
}

/// Register a list of patterns: each pattern string is tokenized and keyed to
/// its tag, in order; a pattern that does not tokenize, or that collides with
/// an earlier one, is an error.
#[verifier::loop_isolation(false)]
fn register_patterns<T>(list: Vec<(&str, T)>) -> (r: Result<Registry<T>, ToolproofInputError>)
    ensures
        r matches Result::Ok(reg) ==> {
            &&& reg.well_formed()
            &&& reg.entries@.len() == list@.len()
            &&& forall|i: int|
                0 <= i < list@.len() ==> crate::parser::spec_parse_segments(
                    (#[trigger] list@[i]).0@,
                ) == Result::<Seq<crate::segments::SegView>, char>::Ok(reg.entries@[i].0@)
                    && reg.entries@[i].1 == list@[i].1
        },
{
    let ghost input = list@;
    let mut reg: Registry<T> = Registry::new();
    let mut remaining = list;
    while remaining.len() > 0
        invariant
            reg.well_formed(),
            reg.entries@.len() + remaining@.len() == input.len(),
            remaining@ == input.skip(reg.entries@.len() as int),
            forall|i: int|
                0 <= i < reg.entries@.len() ==> crate::parser::spec_parse_segments(
                    (#[trigger] input[i]).0@,
                ) == Result::<Seq<crate::segments::SegView>, char>::Ok(reg.entries@[i].0@)
                    && reg.entries@[i].1 == input[i].1,
        decreases remaining@.len(),
    {
        let ghost done = reg.entries@.len() as int;
        let (pattern, tag) = remaining.remove(0);
        proof {
            assert((pattern, tag) == input[done]);
            assert(remaining@ =~= input.skip(done + 1));
        }
        let key = match parse_segments(pattern) {
            Result::Ok(k) => k,
            Result::Err(e) => {
                return Result::Err(e);
            },
        };
        if !reg.insert(key, tag) {
            return Result::Err(
                ToolproofInputError::StepError {
                    reason: crate::text::string_from_chars(
                        &crate::text::chars_of("step pattern collides with a registered one"),
                    ),
                },
            );
        }
    }
    Result::Ok(reg)
}

/// The registry of built-in instructions.
pub fn register_instructions() -> (r: Result<Registry<InstructionTag>, ToolproofInputError>)
    ensures
        r matches Result::Ok(reg) ==> {
            &&& reg.well_formed()
            &&& reg.entries@.len() == 16
            &&& forall|i: int|
                0 <= i < 16 ==> crate::parser::spec_parse_segments(builtin_instruction(i).0)
                    == Result::<Seq<crate::segments::SegView>, char>::Ok(
                    (#[trigger] reg.entries@[i]).0@,
                ) && reg.entries@[i].1 == builtin_instruction(i).1
        },
{
    let mut list: Vec<(&str, InstructionTag)> = Vec::new();
    list.push(("I have a {filename} file with the content {contents}", InstructionTag::NewFile));
    list.push(("I have the environment variable {name} set to {value}", InstructionTag::EnvVar));
    list.push(("I run {command}", InstructionTag::Run));
    list.push(("I run {command} and expect it to fail", InstructionTag::FailingRun));
    list.push(("In my browser, I load {url}", InstructionTag::LoadPage));
    list.push(("In my browser, I evaluate {js}", InstructionTag::EvalJs));
    list.push(
        ("In my browser, I screenshot the viewport to {filepath}", InstructionTag::ScreenshotViewport),
    );
    list.push(
        (
            "In my browser, I screenshot the element {selector} to {filepath}",
            InstructionTag::ScreenshotElement,
        ),
    );
    list.push(("In my browser, I click {text}", InstructionTag::ClickText));
    list.push(("In my browser, I hover {text}", InstructionTag::HoverText));
    list.push(("In my browser, I click the selector {selector}", InstructionTag::ClickSelector));
    list.push(("In my browser, I hover the selector {selector}", InstructionTag::HoverSelector));
    list.push(("In my browser, I press the {keyname} key", InstructionTag::PressKey));
    list.push(("In my browser, I type {text}", InstructionTag::TypeText));
    list.push(("I serve the directory {dir}", InstructionTag::HostDir));
    list.push(("I serve the directory {dir} and debug", InstructionTag::DebugHostDir));
    let ghost pushed = list@;
    proof {
        assert forall|i: int| 0 <= i < 16 implies (#[trigger] pushed[i]).0@
            == builtin_instruction(i).0 && pushed[i].1 == builtin_instruction(i).1 by {}
    }
    let r = register_patterns(list);
    proof {
        match &r {
            Result::Ok(reg) => {
                assert forall|i: int| 0 <= i < 16 implies crate::parser::spec_parse_segments(
                    builtin_instruction(i).0,
                ) == Result::<Seq<crate::segments::SegView>, char>::Ok(
                    (#[trigger] reg.entries@[i]).0@,
                ) && reg.entries@[i].1 == builtin_instruction(i).1 by {
                    assert(pushed[i].0@ == builtin_instruction(i).0 && pushed[i].1 == builtin_instruction(i).1);
                    assert(crate::parser::spec_parse_segments(pushed[i].0@) == Result::<
                        Seq<crate::segments::SegView>,
                        char,
                    >::Ok(reg.entries@[i].0@) && reg.entries@[i].1 == pushed[i].1);
                }
            },
            Result::Err(_) => {},
        }
    }
    r
}

/// The registry of built-in retrievers.
pub fn register_retrievers() -> (r: Result<Registry<RetrieverTag>, ToolproofInputError>)
    ensures
        r matches Result::Ok(reg) ==> {
            &&& reg.well_formed()
            &&& reg.entries@.len() == 5
            &&& forall|i: int|
                0 <= i < 5 ==> crate::parser::spec_parse_segments(builtin_retriever(i).0)
                    == Result::<Seq<crate::segments::SegView>, char>::Ok(
                    (#[trigger] reg.entries@[i]).0@,
                ) && reg.entries@[i].1 == builtin_retriever(i).1
        },
{
    let mut list: Vec<(&str, RetrieverTag)> = Vec::new();
    list.push(("The file {filename}", RetrieverTag::PlainFile));
    list.push(("stdout", RetrieverTag::StdOut));
    list.push(("stderr", RetrieverTag::StdErr));
    list.push(("In my browser, the result of {js}", RetrieverTag::GetJs));
    list.push(("In my browser, the console", RetrieverTag::GetConsole));
    let ghost pushed = list@;
    proof {
        assert forall|i: int| 0 <= i < 5 implies (#[trigger] pushed[i]).0@
            == builtin_retriever(i).0 && pushed[i].1 == builtin_retriever(i).1 by {}
    }
    let r = register_patterns(list);
    proof {
        match &r {
            Result::Ok(reg) => {
                assert forall|i: int| 0 <= i < 5 implies crate::parser::spec_parse_segments(
                    builtin_retriever(i).0,
                ) == Result::<Seq<crate::segments::SegView>, char>::Ok(
                    (#[trigger] reg.entries@[i]).0@,
                ) && reg.entries@[i].1 == builtin_retriever(i).1 by {
                    assert(pushed[i].0@ == builtin_retriever(i).0 && pushed[i].1 == builtin_retriever(i).1);
                    assert(crate::parser::spec_parse_segments(pushed[i].0@) == Result::<
                        Seq<crate::segments::SegView>,
                        char,
                    >::Ok(reg.entries@[i].0@) && reg.entries@[i].1 == pushed[i].1);
                }
            },
            Result::Err(_) => {},
        }
    }
    r
}

/// The registry of built-in assertions.
pub fn register_assertions() -> (r: Result<Registry<AssertionTag>, ToolproofInputError>)
    ensures
        r matches Result::Ok(reg) ==> {
            &&& reg.well_formed()
            &&& reg.entries@.len() == 6
            &&& forall|i: int|
                0 <= i < 6 ==> crate::parser::spec_parse_segments(builtin_assertion(i).0)
                    == Result::<Seq<crate::segments::SegView>, char>::Ok(
                    (#[trigger] reg.entries@[i]).0@,
                ) && reg.entries@[i].1 == builtin_assertion(i).1
        },
{
    let mut list: Vec<(&str, AssertionTag)> = Vec::new();
    list.push(("be exactly {expected}", AssertionTag::Exactly));
    list.push(("not be exactly {expected}", AssertionTag::NotExactly));
    list.push(("contain {expected}", AssertionTag::Contain));
    list.push(("not contain {expected}", AssertionTag::NotContain));
    list.push(("be empty", AssertionTag::Empty));
    list.push(("not be empty", AssertionTag::NotEmpty));
    let ghost pushed = list@;
    proof {
        assert forall|i: int| 0 <= i < 6 implies (#[trigger] pushed[i]).0@
            == builtin_assertion(i).0 && pushed[i].1 == builtin_assertion(i).1 by {}
    }
    let r = register_patterns(list);
    proof {
        match &r {
            Result::Ok(reg) => {
                assert forall|i: int| 0 <= i < 6 implies crate::parser::spec_parse_segments(
                    builtin_assertion(i).0,
                ) == Result::<Seq<crate::segments::SegView>, char>::Ok(
                    (#[trigger] reg.entries@[i]).0@,
                ) && reg.entries@[i].1 == builtin_assertion(i).1 by {
                    assert(pushed[i].0@ == builtin_assertion(i).0 && pushed[i].1 == builtin_assertion(i).1);
                    assert(crate::parser::spec_parse_segments(pushed[i].0@) == Result::<
                        Seq<crate::segments::SegView>,
                        char,
                    >::Ok(reg.entries@[i].0@) && reg.entries@[i].1 == pushed[i].1);
                }
            },
            Result::Err(_) => {},
        }
    }
    r
}

} // verus!
