//! The error strata.
//!
//! Input errors are user-facing and recoverable at parse or registration
//! time; assertion errors fail one test without aborting the run; internal
//! errors are unexpected conditions. A step error is one of the three, and a
//! test error pairs a step error with the step it arose from.

use vstd::prelude::*;

verus! {

/// A user-facing error in the test input.
#[derive(Debug)]
pub enum ToolproofInputError {
    /// The step matched no registered pattern.
    NonexistentStep,
    /// Two test files share one name.
    DuplicateName { path_one: String, path_two: String, name: String },
    /// A reference path could not be read as a path.
    InvalidPath { input: String },
    /// A reference named a test file that does not exist.
    InvalidRef { input: String, closest: String },
    /// A quote or brace opened in a pattern was never closed; the field holds
    /// the closing delimiter that was expected.
    UnclosedValue { expected: char },
    /// A variable was referenced that is not among the supplied arguments;
    /// `has` lists the names that are bound.
    NonexistentArgument { arg: String, has: String },
    /// An argument held a value of the wrong JSON type.
    IncorrectArgumentType { arg: String, was: String, expected: String },
    /// An argument was supplied empty where a value is required.
    ArgumentRequiresValue { arg: String },
    /// A step was used before what it builds on was set up.
    StepRequirementsNotMet { reason: String },
    /// A step body reported a malformed input.
    StepError { reason: String },
    /// A test or macro file did not parse; the field holds the parser's words.
    ParseError { msg: String },
}

/// A test-level failure: the test fails, the run goes on.
#[derive(Debug)]
pub enum ToolproofTestFailure {
    Custom { msg: String },
    /// JavaScript in the browser reported errors; `logs` holds the console
    /// output gathered alongside.
    BrowserJavascriptErr { msg: String, logs: String },
}

/// An unexpected condition inside the runner or a driver.
#[derive(Debug)]
pub enum ToolproofInternalError {
    Custom { msg: String },
}

/// Any error a step can end in.
#[derive(Debug)]
pub enum ToolproofStepError {
    External(ToolproofInputError),
    Assertion(ToolproofTestFailure),
    Internal(ToolproofInternalError),
}

} // verus!
