//! The built-in assertions: exact equality, containment, emptiness, and
//! their negations, on JSON values.

use vstd::prelude::*;

use crate::civilization::Civilization;
use crate::errors::{ToolproofInternalError, ToolproofStepError, ToolproofTestFailure};
use crate::json::{json_of, JsonValue, JsonView};
use crate::text::{chars_of, contains_chars, contains_seq, extend_str};

verus! {

/// What `contain` means: equal values contain each other; null, booleans and
/// numbers contain nothing else; a string contains a string, boolean or
/// number that occurs in it (the latter two by their printed form); every
/// other pairing is deliberately unimplemented, which is `None` here and a
/// loud internal error at run time.
pub open spec fn spec_value_contains(base: JsonView, expected: JsonView) -> Option<bool> {
    if base == expected {
        Option::Some(true)
    } else {
        match base {
            JsonView::Null => Option::Some(false),
            JsonView::Bool(_) => Option::Some(false),
            JsonView::Number(_) => Option::Some(false),
            JsonView::Str(s) => match expected {
                JsonView::Bool(b) => Option::Some(
                    contains_seq(
                        s,
                        if b {
                            "true"@
                        } else {
                            "false"@
                        },
                    ),
                ),
                JsonView::Number(n) => Option::Some(contains_seq(s, n)),
                JsonView::Str(e) => Option::Some(contains_seq(s, e)),
                _ => Option::None,
            },
            JsonView::Array(_) => Option::None,
            JsonView::Object(_) => Option::None,
        }
    }
}

/// Whether a value is empty: null is, a string, array or object is when it
/// has no contents, a boolean or number never is.
pub open spec fn spec_value_is_empty(v: JsonView) -> bool {
    match v {
        JsonView::Null => true,
        JsonView::Str(s) => s.len() == 0,
        JsonView::Bool(_) => false,
        JsonView::Number(_) => false,
        JsonView::Array(a) => a.len() == 0,
        JsonView::Object(o) => o.len() == 0,
    }
}

/// The name of a value's JSON type.
pub open spec fn spec_value_type(v: JsonView) -> Seq<char> {
    match v {
        JsonView::Null => "null"@,
        JsonView::Str(_) => "string"@,
        JsonView::Bool(_) => "bool"@,
        JsonView::Number(_) => "number"@,
        JsonView::Array(_) => "array"@,
        JsonView::Object(_) => "object"@,
    }
}

/// The message of the internal error for an unimplemented comparison.
pub open spec fn unimplemented_comparison_msg(base: JsonView, expected: JsonView) -> Seq<char> {
    "A comparison for these values has not been implemented.\n---\n"@ + json_of(base)
        + "\n---\ncannot compare with\n---\n"@ + json_of(expected) + "\n---"@
}

/// Whether `base` contains `expected`, or the loud internal error for a
/// pairing the comparison deliberately leaves unimplemented.
pub fn value_contains_value(base: &JsonValue, expected: &JsonValue) -> (r: Result<
    bool,
    ToolproofStepError,
>)
    ensures
        match spec_value_contains(base@, expected@) {
            Option::Some(b) => r matches Result::Ok(rb) && rb == b,
            Option::None => r matches Result::Err(e) && (e matches ToolproofStepError::Internal(
                ToolproofInternalError::Custom { msg },
            ) && msg@ == unimplemented_comparison_msg(base@, expected@)),
        },
{
    if base.eq(expected) {
        return Result::Ok(true);
    }
    match (base, expected) {
        (JsonValue::Null, _) => Result::Ok(false),
        (JsonValue::Bool(_), _) => Result::Ok(false),
        (JsonValue::Number(_), _) => Result::Ok(false),
        (JsonValue::Str(s), JsonValue::Bool(b)) => {
            let hay = chars_of(s.as_str());
            let needle = if *b {
                chars_of("true")
            } else {
                chars_of("false")
            };
            Result::Ok(contains_chars(&hay, &needle))
        },
        (JsonValue::Str(s), JsonValue::Number(n)) => {
            let hay = chars_of(s.as_str());
            let needle = chars_of(n.as_str());
            Result::Ok(contains_chars(&hay, &needle))
        },
        (JsonValue::Str(s), JsonValue::Str(e)) => {
            let hay = chars_of(s.as_str());
            let needle = chars_of(e.as_str());
            Result::Ok(contains_chars(&hay, &needle))
        },
        (_, _) => {
            let mut msg: Vec<char> = Vec::new();
            extend_str(&mut msg, "A comparison for these values has not been implemented.\n---\n");
            crate::json::push_json(&mut msg, base);
            extend_str(&mut msg, "\n---\ncannot compare with\n---\n");
            crate::json::push_json(&mut msg, expected);
            extend_str(&mut msg, "\n---");
            proof {
                assert(msg@ =~= unimplemented_comparison_msg(base@, expected@));
            }
            Result::Err(
                ToolproofStepError::Internal(
                    ToolproofInternalError::Custom {
                        msg: crate::text::string_from_chars(&msg),
                    },
                ),
            )
        },
    }
}

/// Whether a value is empty (executable).
pub fn value_is_empty(val: &JsonValue) -> (r: bool)
    ensures
        r == spec_value_is_empty(val@),
{
    match val {
        JsonValue::Null => true,
        JsonValue::Str(s) => s.as_str().unicode_len() == 0,
        JsonValue::Bool(_) => false,
        JsonValue::Number(_) => false,
        JsonValue::Array(a) => {
            proof {
                crate::json::lemma_json_view_seq(a@);
            }
            a.len() == 0
        },
        JsonValue::Object(o) => {
            proof {
                crate::json::lemma_json_view_entries(o@);
            }
            o.len() == 0
        },
    }
}

/// The name of a value's JSON type (executable).
pub fn value_type(val: &JsonValue) -> (r: &'static str)
    ensures
        r@ == spec_value_type(val@),
{
    match val {
        JsonValue::Null => "null",
        JsonValue::Str(_) => "string",
        JsonValue::Bool(_) => "bool",
        JsonValue::Number(_) => "number",
        JsonValue::Array(_) => "array",
        JsonValue::Object(_) => "object",
    }
}

/// A failing comparison's message: the two values between fences with the
/// given connective between them.
fn fenced_pair_msg(head: &str, a: &JsonValue, mid: &str, b: &JsonValue, tail: &str) -> (r: String)
    ensures
        r@ == head@ + json_of(a@) + mid@ + json_of(b@) + tail@,
{
    let mut msg: Vec<char> = Vec::new();
    extend_str(&mut msg, head);
    crate::json::push_json(&mut msg, a);
    extend_str(&mut msg, mid);
    crate::json::push_json(&mut msg, b);
    extend_str(&mut msg, tail);
    proof {
        assert(msg@ =~= head@ + json_of(a@) + mid@ + json_of(b@) + tail@);
    }
    crate::text::string_from_chars(&msg)
}

/// `contain {expected}`.
pub struct Contain;

impl Contain {
    /// The pattern this assertion registers under.
    pub fn segments(&self) -> &'static str {
        "contain {expected}"
    }

    /// Passes exactly when the base value contains the expected one; an
    /// unimplemented pairing is an internal error, surfaced loudly.
    pub fn run(&self, base_value: &JsonValue, expected: &JsonValue, _civ: &mut Civilization) -> (r:
        Result<(), ToolproofStepError>)
        ensures
            *final(_civ) == *old(_civ),
            match spec_value_contains(base_value@, expected@) {
                Option::Some(true) => r is Ok,
                Option::Some(false) => r matches Result::Err(ToolproofStepError::Assertion(
                    ToolproofTestFailure::Custom { msg },
                )) && msg@ == "The value\n---\n"@ + json_of(base_value@)
                    + "\n---\ndoes not contain\n---\n"@ + json_of(expected@) + "\n---"@,
                Option::None => r matches Result::Err(ToolproofStepError::Internal(
                    ToolproofInternalError::Custom { msg },
                )) && msg@ == unimplemented_comparison_msg(base_value@, expected@),
            },
    {
        match value_contains_value(base_value, expected) {
            Result::Err(e) => Result::Err(e),
            Result::Ok(true) => Result::Ok(()),
            Result::Ok(false) => Result::Err(
                ToolproofStepError::Assertion(
                    ToolproofTestFailure::Custom {
                        msg: fenced_pair_msg(
                            "The value\n---\n",
                            base_value,
                            "\n---\ndoes not contain\n---\n",
                            expected,
                            "\n---",
                        ),
                    },
                ),
            ),
        }
    }
}

/// `not contain {expected}`.
pub struct NotContain;

impl NotContain {
    /// The pattern this assertion registers under.
    pub fn segments(&self) -> &'static str {
        "not contain {expected}"
    }

    /// Passes exactly when the base value does not contain the expected one;
    /// an unimplemented pairing is an internal error, surfaced loudly.
    pub fn run(&self, base_value: &JsonValue, expected: &JsonValue, _civ: &mut Civilization) -> (r:
        Result<(), ToolproofStepError>)
        ensures
            *final(_civ) == *old(_civ),
            match spec_value_contains(base_value@, expected@) {
                Option::Some(false) => r is Ok,
                Option::Some(true) => r matches Result::Err(ToolproofStepError::Assertion(
                    ToolproofTestFailure::Custom { msg },
                )) && msg@ == "The value\n---\n"@ + json_of(base_value@)
                    + "\n---\nshould not contain the following value, but does\n---\n"@ + json_of(
                    expected@,
                ) + "\n---"@,
                Option::None => r matches Result::Err(ToolproofStepError::Internal(
                    ToolproofInternalError::Custom { msg },
                )) && msg@ == unimplemented_comparison_msg(base_value@, expected@),
            },
    {
        match value_contains_value(base_value, expected) {
            Result::Err(e) => Result::Err(e),
            Result::Ok(false) => Result::Ok(()),
            Result::Ok(true) => Result::Err(
                ToolproofStepError::Assertion(
                    ToolproofTestFailure::Custom {
                        msg: fenced_pair_msg(
                            "The value\n---\n",
                            base_value,
                            "\n---\nshould not contain the following value, but does\n---\n",
                            expected,
                            "\n---",
                        ),
                    },
                ),
            ),
        }
    }
}

/// `be exactly {expected}`.
pub struct Exactly;

impl Exactly {
    /// The pattern this assertion registers under.
    pub fn segments(&self) -> &'static str {
        "be exactly {expected}"
    }

    /// Passes exactly when the two values are equal.
    pub fn run(&self, base_value: &JsonValue, expected: &JsonValue, _civ: &mut Civilization) -> (r:
        Result<(), ToolproofStepError>)
        ensures
            *final(_civ) == *old(_civ),
            base_value@ == expected@ <==> r is Ok,
            r matches Result::Err(e) ==> e matches ToolproofStepError::Assertion(
                ToolproofTestFailure::Custom { msg },
            ) && msg@ == "The value\n---\n"@ + json_of(base_value@)
                + "\n---\nshould be exactly the following value, but is not\n---\n"@ + json_of(
                expected@,
            ) + "\n---"@,
    {
        if base_value.eq(expected) {
            Result::Ok(())
        } else {
            Result::Err(
                ToolproofStepError::Assertion(
                    ToolproofTestFailure::Custom {
                        msg: fenced_pair_msg(
                            "The value\n---\n",
                            base_value,
                            "\n---\nshould be exactly the following value, but is not\n---\n",
                            expected,
                            "\n---",
                        ),
                    },
                ),
            )
        }
    }
}

/// `not be exactly {expected}`.
pub struct NotExactly;

impl NotExactly {
    /// The pattern this assertion registers under.
    pub fn segments(&self) -> &'static str {
        "not be exactly {expected}"
    }

    /// Passes exactly when the two values differ.
    pub fn run(&self, base_value: &JsonValue, expected: &JsonValue, _civ: &mut Civilization) -> (r:
        Result<(), ToolproofStepError>)
        ensures
            *final(_civ) == *old(_civ),
            base_value@ != expected@ <==> r is Ok,
            r matches Result::Err(e) ==> e matches ToolproofStepError::Assertion(
                ToolproofTestFailure::Custom { msg },
            ) && msg@ == "The value\n---\n"@ + json_of(base_value@)
                + "\n---\nshould be exactly the following value, but is not\n---\n"@ + json_of(
                expected@,
            ) + "\n---"@,
    {
        if !base_value.eq(expected) {
            Result::Ok(())
        } else {
            Result::Err(
                ToolproofStepError::Assertion(
                    ToolproofTestFailure::Custom {
                        msg: fenced_pair_msg(
                            "The value\n---\n",
                            base_value,
                            "\n---\nshould be exactly the following value, but is not\n---\n",
                            expected,
                            "\n---",
                        ),
                    },
                ),
            )
        }
    }
}

/// `be empty`.
pub struct Empty;

impl Empty {
    /// The pattern this assertion registers under.
    pub fn segments(&self) -> &'static str {
        "be empty"
    }

    /// Passes exactly when the base value is empty.
    pub fn run(&self, base_value: &JsonValue, _civ: &mut Civilization) -> (r: Result<
        (),
        ToolproofStepError,
    >)
        ensures
            *final(_civ) == *old(_civ),
            spec_value_is_empty(base_value@) <==> r is Ok,
            r matches Result::Err(e) ==> e matches ToolproofStepError::Assertion(
                ToolproofTestFailure::Custom { msg },
            ) && msg@ == "The value should be empty, but was:\n---\n"@ + json_of(base_value@)
                + "\n---"@,
    {
        if value_is_empty(base_value) {
            Result::Ok(())
        } else {
            let mut msg: Vec<char> = Vec::new();
            extend_str(&mut msg, "The value should be empty, but was:\n---\n");
            crate::json::push_json(&mut msg, base_value);
            extend_str(&mut msg, "\n---");
            proof {
                assert(msg@ =~= "The value should be empty, but was:\n---\n"@ + json_of(
                    base_value@,
                ) + "\n---"@);
            }
            Result::Err(
                ToolproofStepError::Assertion(
                    ToolproofTestFailure::Custom {
                        msg: crate::text::string_from_chars(&msg),
                    },
                ),
            )
        }
    }
}

/// `not be empty`.
pub struct NotEmpty;

impl NotEmpty {
    /// The pattern this assertion registers under.
    pub fn segments(&self) -> &'static str {
        "not be empty"
    }

    /// Passes exactly when the base value is not empty; the failure names the
    /// empty value's type.
    pub fn run(&self, base_value: &JsonValue, _civ: &mut Civilization) -> (r: Result<
        (),
        ToolproofStepError,
    >)
        ensures
            *final(_civ) == *old(_civ),
            !spec_value_is_empty(base_value@) <==> r is Ok,
            r matches Result::Err(e) ==> e matches ToolproofStepError::Assertion(
                ToolproofTestFailure::Custom { msg },
            ) && msg@ == "The value should not be empty, but was an empty "@ + spec_value_type(
                base_value@,
            ) + " value"@,
    {
        if !value_is_empty(base_value) {
            Result::Ok(())
        } else {
            let mut msg: Vec<char> = Vec::new();
            extend_str(&mut msg, "The value should not be empty, but was an empty ");
            extend_str(&mut msg, value_type(base_value));
            extend_str(&mut msg, " value");
            proof {
                assert(msg@ =~= "The value should not be empty, but was an empty "@
                    + spec_value_type(base_value@) + " value"@);
            }
            Result::Err(
                ToolproofStepError::Assertion(
                    ToolproofTestFailure::Custom {
                        msg: crate::text::string_from_chars(&msg),
                    },
                ),
            )
        }
    }
}

} // verus!
