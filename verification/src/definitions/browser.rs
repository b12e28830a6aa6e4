//! The browser steps' logic: URL building, the JavaScript harness, the
//! result shape the harness must return, XPath escaping, key mapping, and
//! screenshot formats. The driver itself (navigation, clicks, screenshots)
//! runs at the program's edge through a seven-operation capability set.

use vstd::prelude::*;

use crate::civilization::Civilization;
use crate::errors::{
    ToolproofInputError, ToolproofInternalError, ToolproofStepError, ToolproofTestFailure,
};
use crate::json::{JsonValue, JsonView};
use crate::text::{
    chars_equal, chars_of, contains_chars, contains_seq, extend_chars, extend_str, push_decimal,
    replace_chars, replaced, spec_decimal, string_from_chars,
};

verus! {

/// The outer JavaScript harness: user code is spliced in at the marker and
/// runs inside an async function that gathers errors and console output, then
/// answers with `{ toolproof_errs, logs, inner_response }`.
pub const HARNESS: &'static str = "const toolproof_errs = [];\nconst toolproof_logs = [];\nconst toolproof = {\n  assert_eq: (a, b) => { if (a !== b) toolproof_errs.push(`Equality assertion failed: ${a} !== ${b}`); },\n  assert: (v) => { if (!v) toolproof_errs.push(`Assertion failed`); },\n  log: (m) => toolproof_logs.push(`${m}`),\n};\nconst inner = async () => {\n// insert_toolproof_inner_js\n};\nlet inner_response;\ntry {\n  inner_response = await inner();\n} catch (e) {\n  toolproof_errs.push(`JavaScript error: ${e}`);\n}\nreturn { toolproof_errs, logs: toolproof_logs.join(`\\n`), inner_response };";

/// The marker in the harness that the user's JavaScript replaces.
pub const HARNESS_MARKER: &'static str = "// insert_toolproof_inner_js";

/// The initialization script template; the timeout placeholder is replaced
/// with the configured step timeout in milliseconds.
pub const INIT_SCRIPT: &'static str = "window.toolproof_log_events = { ALL: [] };\nwindow.toolproof_selector_timeout = DEFAULT_TIMEOUT;";

/// The timeout placeholder in the initialization script.
pub const INIT_TIMEOUT_MARKER: &'static str = "DEFAULT_TIMEOUT";

/// The user's JavaScript spliced into the harness at the marker.
pub fn harnessed(js: String) -> (r: String)
    ensures
        r@ == replaced(HARNESS@, HARNESS_MARKER@, js@),
{
    let hay = chars_of(HARNESS);
    let pat = chars_of(HARNESS_MARKER);
    let to = chars_of(js.as_str());
    let out = replace_chars(&hay, &pat, &to);
    string_from_chars(&out)
}

/// The initialization script with the timeout placeholder replaced by the
/// step timeout in milliseconds.
pub fn init_script(timeout_secs: u64) -> (r: String)
    requires
        timeout_secs <= 0xffff_ffff,
    ensures
        r@ == replaced(INIT_SCRIPT@, INIT_TIMEOUT_MARKER@, spec_decimal(timeout_secs * 1000)),
{
    let hay = chars_of(INIT_SCRIPT);
    let pat = chars_of(INIT_TIMEOUT_MARKER);
    let mut to: Vec<char> = Vec::new();
    push_decimal(&mut to, timeout_secs * 1000);
    let out = replace_chars(&hay, &pat, &to);
    string_from_chars(&out)
}

/// The per-selector wait: two seconds less than the step timeout, at least
/// one second, so a missing element is reported as such before the outer
/// step guard fires.
pub fn auto_selector_timeout(timeout_secs: u64) -> (r: u64)
    ensures
        timeout_secs >= 3 ==> r == timeout_secs - 2,
        timeout_secs < 3 ==> r == 1,
{
    let lowered = if timeout_secs >= 2 {
        timeout_secs - 2
    } else {
        0
    };
    if lowered < 1 {
        1
    } else {
        lowered
    }
}

/// A string quoted for use inside an XPath expression: wrapped in single
/// quotes, or, when it contains single quotes itself, split on them and
/// rebuilt with XPath's `concat`.
pub open spec fn spec_escaped_xpath(s: Seq<char>) -> Seq<char> {
    if contains_seq(s, seq!['\'']) {
        "concat('"@ + replaced(s, seq!['\''], "',\"'\",'"@) + "')"@
    } else {
        seq!['\''] + s + seq!['\'']
    }
}

/// Quote a string for an XPath expression.
pub fn escape_xpath_string(s: &str) -> (r: String)
    ensures
        r@ == spec_escaped_xpath(s@),
{
    let cs = chars_of(s);
    let mut quote: Vec<char> = Vec::new();
    quote.push('\'');
    proof {
        assert(quote@ =~= seq!['\'']);
    }
    if contains_chars(&cs, &quote) {
        let to = chars_of("',\"'\",'");
        let replaced_chars = replace_chars(&cs, &quote, &to);
        let mut out: Vec<char> = Vec::new();
        extend_str(&mut out, "concat('");
        extend_chars(&mut out, &replaced_chars);
        extend_str(&mut out, "')");
        proof {
            assert(out@ =~= spec_escaped_xpath(s@));
        }
        string_from_chars(&out)
    } else {
        let mut out: Vec<char> = Vec::new();
        out.push('\'');
        extend_chars(&mut out, &cs);
        out.push('\'');
        proof {
            assert(out@ =~= spec_escaped_xpath(s@));
        }
        string_from_chars(&out)
    }
}

/// The URL a `load` step navigates to: the page argument behind the
/// sandbox's local server.
pub fn load_url(port: u16, page: &str) -> (r: String)
    ensures
        r@ == "http://localhost:"@ + spec_decimal(port as int) + page@,
{
    let mut out: Vec<char> = Vec::new();
    extend_str(&mut out, "http://localhost:");
    push_decimal(&mut out, port as u64);
    extend_str(&mut out, page);
    proof {
        assert(out@ =~= "http://localhost:"@ + spec_decimal(port as int) + page@);
    }
    string_from_chars(&out)
}

/// `In my browser, I load {url}`.
pub struct LoadPage;

impl LoadPage {
    /// The pattern this instruction registers under.
    pub fn segments(&self) -> &'static str {
        "In my browser, I load {url}"
    }
}

/// `In my browser, I evaluate {js}`.
pub struct EvalJs;

impl EvalJs {
    /// The pattern this instruction registers under.
    pub fn segments(&self) -> &'static str {
        "In my browser, I evaluate {js}"
    }
}

/// `In my browser, the result of {js}`.
pub struct GetJs;

impl GetJs {
    /// The pattern this retriever registers under.
    pub fn segments(&self) -> &'static str {
        "In my browser, the result of {js}"
    }
}

/// `In my browser, the console`.
pub struct GetConsole;

impl GetConsole {
    /// The pattern this retriever registers under.
    pub fn segments(&self) -> &'static str {
        "In my browser, the console"
    }

    /// The JavaScript whose harnessed evaluation retrieves the console.
    pub fn console_js(&self) -> &'static str {
        "return toolproof_log_events[`ALL`];"
    }
}

/// `In my browser, I screenshot the viewport to {filepath}`.
pub struct ScreenshotViewport;

impl ScreenshotViewport {
    /// The pattern this instruction registers under.
    pub fn segments(&self) -> &'static str {
        "In my browser, I screenshot the viewport to {filepath}"
    }
}

/// `In my browser, I screenshot the element {selector} to {filepath}`.
pub struct ScreenshotElement;

impl ScreenshotElement {
    /// The pattern this instruction registers under.
    pub fn segments(&self) -> &'static str {
        "In my browser, I screenshot the element {selector} to {filepath}"
    }
}

/// `In my browser, I click {text}`.
pub struct ClickText;

impl ClickText {
    /// The pattern this instruction registers under.
    pub fn segments(&self) -> &'static str {
        "In my browser, I click {text}"
    }
}

/// `In my browser, I hover {text}`.
pub struct HoverText;

impl HoverText {
    /// The pattern this instruction registers under.
    pub fn segments(&self) -> &'static str {
        "In my browser, I hover {text}"
    }
}

/// `In my browser, I click the selector {selector}`.
pub struct ClickSelector;

impl ClickSelector {
    /// The pattern this instruction registers under.
    pub fn segments(&self) -> &'static str {
        "In my browser, I click the selector {selector}"
    }
}

/// `In my browser, I hover the selector {selector}`.
pub struct HoverSelector;

impl HoverSelector {
    /// The pattern this instruction registers under.
    pub fn segments(&self) -> &'static str {
        "In my browser, I hover the selector {selector}"
    }
}

/// `In my browser, I press the {keyname} key`.
pub struct PressKey;

impl PressKey {
    /// The pattern this instruction registers under.
    pub fn segments(&self) -> &'static str {
        "In my browser, I press the {keyname} key"
    }
}

/// `In my browser, I type {text}`.
pub struct TypeText;

impl TypeText {
    /// The pattern this instruction registers under.
    pub fn segments(&self) -> &'static str {
        "In my browser, I type {text}"
    }

    /// The key names a text types as, one per character, with newline and tab
    /// mapped to their named keys.
    pub fn keys_for(&self, text: &str) -> (r: Vec<String>)
        ensures
            r@.len() == text@.len(),
            forall|i: int|
                0 <= i < text@.len() ==> (#[trigger] r@[i])@ == spec_key_for(text@[i]),
    {
        let cs = chars_of(text);
        let mut out: Vec<String> = Vec::new();
        let mut i: usize = 0;
        while i < cs.len()
            invariant
                i <= cs@.len(),
                cs@ == text@,
                out@.len() == i,
                forall|j: int| 0 <= j < i ==> (#[trigger] out@[j])@ == spec_key_for(text@[j]),
            decreases cs@.len() - i,
        {
            let c = cs[i];
            let key: String = if c == '\n' {
                let mut k: Vec<char> = Vec::new();
                extend_str(&mut k, "Enter");
                proof {
                    assert(k@ =~= "Enter"@);
                }
                string_from_chars(&k)
            } else if c == '\t' {
                let mut k: Vec<char> = Vec::new();
                extend_str(&mut k, "Tab");
                proof {
                    assert(k@ =~= "Tab"@);
                }
                string_from_chars(&k)
            } else {
                let mut k: Vec<char> = Vec::new();
                k.push(c);
                proof {
                    assert(k@ =~= seq![c]);
                }
                string_from_chars(&k)
            };
            out.push(key);
            i += 1;
        }
        out
    }
}

/// How one character is typed: newline presses Enter, tab presses Tab, any
/// other character presses itself.
pub open spec fn spec_key_for(c: char) -> Seq<char> {
    if c == '\n' {
        "Enter"@
    } else if c == '\t' {
        "Tab"@
    } else {
        seq![c]
    }
}

/// The image formats a screenshot path may name.
#[derive(Debug, Clone, Copy, PartialEq, Eq, Structural)]
pub enum ImageFormat {
    Png,
    Webp,
    Jpeg,
}

/// The format a path's extension names, if a supported one: `png`, `webp`,
/// `jpg` and `jpeg` (already lowercased) are supported.
pub open spec fn spec_image_format(ext: Seq<char>) -> Option<ImageFormat> {
    if ext == "png"@ {
        Option::Some(ImageFormat::Png)
    } else if ext == "webp"@ {
        Option::Some(ImageFormat::Webp)
    } else if ext == "jpg"@ || ext == "jpeg"@ {
        Option::Some(ImageFormat::Jpeg)
    } else {
        Option::None
    }
}

/// The screenshot format for a file extension, or the error a path without a
/// usable extension earns. The extension arrives lowercased from the shell;
/// `None` means the path had no extension at all.
pub fn image_format(extension: Option<&String>) -> (r: Result<ImageFormat, ToolproofStepError>)
    ensures
        match extension {
            Option::Some(ext) => match spec_image_format(ext@) {
                Option::Some(f) => r matches Result::Ok(rf) && rf == f,
                Option::None => r matches Result::Err(ToolproofStepError::External(
                    ToolproofInputError::StepRequirementsNotMet { reason },
                )) && reason@ == "Image file extension must be png, webp, jpeg, or jpg"@,
            },
            Option::None => r matches Result::Err(ToolproofStepError::External(
                ToolproofInputError::StepRequirementsNotMet { reason },
            )) && reason@ == "Image file path must have an extension"@,
        },
{
    match extension {
        Option::Some(ext) => {
            let cs = chars_of(ext.as_str());
            let png = chars_of("png");
            let webp = chars_of("webp");
            let jpg = chars_of("jpg");
            let jpeg = chars_of("jpeg");
            if chars_equal(&cs, &png) {
                Result::Ok(ImageFormat::Png)
            } else if chars_equal(&cs, &webp) {
                Result::Ok(ImageFormat::Webp)
            } else if chars_equal(&cs, &jpg) || chars_equal(&cs, &jpeg) {
                Result::Ok(ImageFormat::Jpeg)
            } else {
                let mut reason: Vec<char> = Vec::new();
                extend_str(&mut reason, "Image file extension must be png, webp, jpeg, or jpg");
                proof {
                    assert(reason@ =~= "Image file extension must be png, webp, jpeg, or jpg"@);
                }
                Result::Err(
                    ToolproofStepError::External(
                        ToolproofInputError::StepRequirementsNotMet {
                            reason: string_from_chars(&reason),
                        },
                    ),
                )
            }
        },
        Option::None => {
            let mut reason: Vec<char> = Vec::new();
            extend_str(&mut reason, "Image file path must have an extension");
            proof {
                assert(reason@ =~= "Image file path must have an extension"@);
            }
            Result::Err(
                ToolproofStepError::External(
                    ToolproofInputError::StepRequirementsNotMet {
                        reason: string_from_chars(&reason),
                    },
                ),
            )
        },
    }
}

/// The value under `name` in a JSON object's entries, scanning from the
/// front.
pub open spec fn obj_lookup(entries: Seq<(Seq<char>, JsonView)>, name: Seq<char>, k: int) -> Option<
    JsonView,
>
    decreases entries.len() - k + 1,
{
    if k < 0 || k >= entries.len() {
        Option::None
    } else if entries[k].0 == name {
        Option::Some(entries[k].1)
    } else {
        obj_lookup(entries, name, k + 1)
    }
}

/// The string elements of the harness's error array, in order.
pub open spec fn spec_err_lines(items: Seq<JsonView>) -> Seq<Seq<char>>
    decreases items.len(),
{
    if items.len() == 0 {
        Seq::empty()
    } else {
        let rest = spec_err_lines(items.drop_first());
        match items[0] {
            JsonView::Str(s) => seq![s] + rest,
            _ => rest,
        }
    }
}

/// Lines joined with a newline between them.
pub open spec fn spec_joined_lines(lines: Seq<Seq<char>>) -> Seq<char>
    decreases lines.len(),
{
    if lines.len() == 0 {
        Seq::empty()
    } else if lines.len() == 1 {
        lines[0]
    } else {
        lines[0] + seq!['\n'] + spec_joined_lines(lines.drop_first())
    }
}

/// Find a key's value in a JSON object (executable, first occurrence).
#[verifier::loop_isolation(false)]
fn find_entry(entries: &Vec<(String, JsonValue)>, name: &str) -> (r: Option<JsonValue>)
    ensures
        match r {
            Option::Some(v) => obj_lookup(crate::json::json_view_entries(entries@), name@, 0)
                == Option::Some(v@),
            Option::None => obj_lookup(crate::json::json_view_entries(entries@), name@, 0)
                is None,
        },
{
    proof {
        crate::json::lemma_json_view_entries(entries@);
    }
    let ghost model = crate::json::json_view_entries(entries@);
    let name_chars = chars_of(name);
    let mut i: usize = 0;
    while i < entries.len()
        invariant
            i <= entries@.len(),
            model == crate::json::json_view_entries(entries@),
            model.len() == entries@.len(),
            forall|j: int|
                0 <= j < entries@.len() ==> #[trigger] model[j] == (entries@[j].0@, entries@[j].1@),
            obj_lookup(model, name@, 0) == obj_lookup(model, name@, i as int),
        decreases entries@.len() - i,
    {
        let key_chars = chars_of(entries[i].0.as_str());
        if chars_equal(&key_chars, &name_chars) {
            proof {
                assert(model[i as int].0 == name@);
                assert(obj_lookup(model, name@, i as int) == Option::Some(model[i as int].1));
            }
            return Option::Some(entries[i].1.clone());
        }
        proof {
            assert(model[i as int].0 != name@);
            assert(obj_lookup(model, name@, i as int) == obj_lookup(model, name@, i + 1));
        }
        i += 1;
    }
    Option::None
}

/// What the harness gave back, interpreted. The value must be an object —
/// anything else is an internal error, since the harness itself broke shape —
/// and the object must hold a `toolproof_errs` array, else the driver broke
/// protocol. Gathered errors fail the step as an assertion carrying the
/// messages joined by newlines plus the logs; otherwise the retrieval yields
/// `inner_response`, or null when there is none.
pub fn interpret_harness_result(value: Option<JsonValue>) -> (r: Result<
    JsonValue,
    ToolproofStepError,
>)
    ensures
        ({
            let entries_opt = match value {
                Option::Some(v) => match v@ {
                    JsonView::Object(entries) => Option::Some(entries),
                    _ => Option::<Seq<(Seq<char>, JsonView)>>::None,
                },
                Option::None => Option::None,
            };
            match entries_opt {
                Option::None => r matches Result::Err(ToolproofStepError::Internal(
                    ToolproofInternalError::Custom { msg },
                )) && msg@ == "JavaScript failed to parse and run"@,
                Option::Some(entries) => match obj_lookup(entries, "toolproof_errs"@, 0) {
                    Option::Some(JsonView::Array(items)) => {
                        if spec_err_lines(items).len() > 0 {
                            r matches Result::Err(ToolproofStepError::Assertion(
                                ToolproofTestFailure::BrowserJavascriptErr { msg, logs },
                            )) && msg@ == spec_joined_lines(spec_err_lines(items)) && logs@
                                == (match obj_lookup(entries, "logs"@, 0) {
                                Option::Some(JsonView::Str(l)) => l,
                                _ => Seq::<char>::empty(),
                            })
                        } else {
                            r matches Result::Ok(v) && v@ == (match obj_lookup(
                                entries,
                                "inner_response"@,
                                0,
                            ) {
                                Option::Some(inner) => inner,
                                Option::None => JsonView::Null,
                            })
                        }
                    },
                    _ => r matches Result::Err(ToolproofStepError::Internal(
                        ToolproofInternalError::Custom { msg },
                    )) && msg@ == "JavaScript returned an unexpected value"@,
                },
            }
        }),
{
    let entries = match value {
        Option::Some(JsonValue::Object(entries)) => entries,
        _ => {
            let mut msg: Vec<char> = Vec::new();
            extend_str(&mut msg, "JavaScript failed to parse and run");
            proof {
                assert(msg@ =~= "JavaScript failed to parse and run"@);
            }
            return Result::Err(
                ToolproofStepError::Internal(
                    ToolproofInternalError::Custom { msg: string_from_chars(&msg) },
                ),
            );
        },
    };
    let items = match find_entry(&entries, "toolproof_errs") {
        Option::Some(JsonValue::Array(items)) => items,
        _ => {
            let mut msg: Vec<char> = Vec::new();
            extend_str(&mut msg, "JavaScript returned an unexpected value");
            proof {
                assert(msg@ =~= "JavaScript returned an unexpected value"@);
            }
            return Result::Err(
                ToolproofStepError::Internal(
                    ToolproofInternalError::Custom { msg: string_from_chars(&msg) },
                ),
            );
        },
    };
    let lines = err_lines(&items);
    if lines.len() > 0 {
        let msg = join_lines(&lines);
        let logs = match find_entry(&entries, "logs") {
            Option::Some(JsonValue::Str(l)) => l,
            _ => {
                let empty: Vec<char> = Vec::new();
                string_from_chars(&empty)
            },
        };
        proof {
            crate::json::lemma_json_view_seq(items@);
        }
        return Result::Err(
            ToolproofStepError::Assertion(
                ToolproofTestFailure::BrowserJavascriptErr { msg, logs },
            ),
        );
    }
    proof {
        crate::json::lemma_json_view_seq(items@);
    }
    match find_entry(&entries, "inner_response") {
        Option::Some(v) => Result::Ok(v),
        Option::None => Result::Ok(JsonValue::Null),
    }
}

proof fn lemma_err_lines_push(items: Seq<JsonView>, x: JsonView)
    ensures
        spec_err_lines(items.push(x)) == spec_err_lines(items) + (match x {
            JsonView::Str(s) => seq![s],
            _ => Seq::<Seq<char>>::empty(),
        }),
    decreases items.len(),
{
    let tail: Seq<Seq<char>> = match x {
        JsonView::Str(s) => seq![s],
        _ => Seq::empty(),
    };
    if items.len() == 0 {
        assert(items.push(x)[0] == x);
        assert(items.push(x).drop_first() =~= Seq::<JsonView>::empty());
        assert(spec_err_lines(Seq::<JsonView>::empty()) == Seq::<Seq<char>>::empty());
        assert(spec_err_lines(items.push(x)) =~= tail);
        assert(spec_err_lines(items) + tail =~= tail);
    } else {
        assert(items.push(x)[0] == items[0]);
        assert(items.push(x).drop_first() =~= items.drop_first().push(x));
        lemma_err_lines_push(items.drop_first(), x);
        assert(spec_err_lines(items.push(x)) =~= spec_err_lines(items) + tail);
    }
}

/// The string elements of the error array (executable).
fn err_lines(items: &Vec<JsonValue>) -> (r: Vec<String>)
    ensures
        r.deep_view() == spec_err_lines(crate::json::json_view_seq(items@)),
{
    proof {
        crate::json::lemma_json_view_seq(items@);
    }
    let ghost model = crate::json::json_view_seq(items@);
    let mut out: Vec<String> = Vec::new();
    let mut i: usize = 0;
    proof {
        assert(model.take(0) =~= Seq::<JsonView>::empty());
        assert(out.deep_view() =~= spec_err_lines(model.take(0)));
    }
    while i < items.len()
        invariant
            i <= items@.len(),
            model == crate::json::json_view_seq(items@),
            model.len() == items@.len(),
            forall|j: int| 0 <= j < items@.len() ==> #[trigger] model[j] == items@[j]@,
            out.deep_view() == spec_err_lines(model.take(i as int)),
        decreases items@.len() - i,
    {
        proof {
            assert(model.take(i + 1) =~= model.take(i as int).push(model[i as int]));
            lemma_err_lines_push(model.take(i as int), model[i as int]);
        }
        match &items[i] {
            JsonValue::Str(s) => {
                out.push(s.clone());
                proof {
                    assert(out.deep_view() =~= spec_err_lines(model.take(i + 1)));
                }
            },
            _ => {
                proof {
                    assert(out.deep_view() =~= spec_err_lines(model.take(i + 1)));
                }
            },
        }
        i += 1;
    }
    proof {
        assert(model.take(model.len() as int) =~= model);
    }
    out
}

/// Join lines with a newline between them (executable).
fn join_lines(lines: &Vec<String>) -> (r: String)
    ensures
        r@ == spec_joined_lines(lines.deep_view()),
{
    let ghost model = lines.deep_view();
    let mut out: Vec<char> = Vec::new();
    let mut i: usize = 0;
    proof {
        assert(model.skip(0) =~= model);
    }
    while i < lines.len()
        invariant
            i <= lines@.len(),
            model == lines.deep_view(),
            model.len() == lines@.len(),
            forall|j: int| 0 <= j < lines@.len() ==> #[trigger] model[j] == lines@[j]@,
            out@ + spec_joined_lines(model.skip(i as int)) == spec_joined_lines(model),
        decreases lines@.len() - i,
    {
        let ghost tail = model.skip(i as int);
        extend_str(&mut out, lines[i].as_str());
        proof {
            assert(tail[0] == model[i as int]);
            assert(tail.drop_first() =~= model.skip(i + 1));
        }
        if i + 1 < lines.len() {
            out.push('\n');
            proof {
                assert(out@ + spec_joined_lines(model.skip(i + 1)) =~= spec_joined_lines(model));
            }
        } else {
            proof {
                assert(model.skip(i + 1) =~= Seq::<Seq<char>>::empty());
                assert(out@ + spec_joined_lines(model.skip(i + 1)) =~= spec_joined_lines(model));
            }
        }
        i += 1;
    }
    proof {
        assert(model.skip(model.len() as int) =~= Seq::<Seq<char>>::empty());
        assert(out@ =~= spec_joined_lines(model));
    }
    string_from_chars(&out)
}

} // verus!
