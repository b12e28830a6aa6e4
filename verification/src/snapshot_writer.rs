//! The snapshot writer: the original test document with each captured
//! snapshot written back in.
//!
//! The writer works on the original source text, never a reparsed tree, so
//! everything it does not touch survives byte for byte. Each captured
//! snapshot becomes a literal block scalar under the `snapshot_content` key
//! of its step, strip-chomped, with every line prefixed by `  ╎` so that
//! trailing whitespace cannot corrupt the round trip. When every captured
//! snapshot equals what the document already records, the document comes back
//! unchanged — byte for byte.

use vstd::prelude::*;

use crate::json::{JsonValue, JsonView};
use crate::segments::args_lookup;
use crate::text::{chars_of, extend_chars, extend_str, spec_find, string_from_chars};
use crate::{steps_view, StepView, ToolproofTestFile, ToolproofTestStep};

verus! {

/// A captured snapshot as it stands in the document: every line of the
/// content prefixed by the anti-whitespace sentinel.
pub open spec fn spec_prefixed(c: Seq<char>) -> Seq<char>
    decreases c.len() via spec_prefixed_decreases
{
    match spec_find(c, seq!['\n']) {
        Option::None => "  \u{254e}"@ + c,
        Option::Some(k) => "  \u{254e}"@ + c.take(k) + seq!['\n'] + spec_prefixed(c.skip(k + 1)),
    }
}

#[via_fn]
proof fn spec_prefixed_decreases(c: Seq<char>) {
    crate::text::lemma_find_from(c, seq!['\n'], 0);
}

/// Prefix every line of a captured snapshot with the sentinel.
#[verifier::loop_isolation(false)]
pub fn prefixed_content(c: &str) -> (r: String)
    ensures
        r@ == spec_prefixed(c@),
{
    let cs = chars_of(c);
    let newline: Vec<char> = vec!['\n'];
    proof {
        assert(newline@ =~= seq!['\n']);
    }
    let mut out: Vec<char> = Vec::new();
    let mut rest = cs;
    proof {
        assert(out@ + spec_prefixed(rest@) =~= spec_prefixed(c@));
    }
    loop
        invariant
            newline@ == seq!['\n'],
            out@ + spec_prefixed(rest@) == spec_prefixed(c@),
        decreases rest@.len(),
    {
        match crate::text::find_chars(&rest, &newline) {
            Option::Some(k) => {
                proof {
                    crate::text::lemma_find_from(rest@, seq!['\n'], 0);
                }
                extend_str(&mut out, "  \u{254e}");
                let mut j: usize = 0;
                let ghost out_before = out@;
                while j < k
                    invariant
                        j <= k,
                        k < rest@.len(),
                        out@ == out_before + rest@.take(j as int),
                    decreases k - j,
                {
                    out.push(rest[j]);
                    proof {
                        assert(out@ =~= out_before + rest@.take(j + 1));
                    }
                    j += 1;
                }
                out.push('\n');
                let rlen = rest.len();
                proof {
                    assert(k + 1 <= rlen);
                }
                let next = crate::text::sub_chars(&rest, k + 1, rlen);
                proof {
                    assert(next@ =~= rest@.skip(k + 1));
                    assert(out@ + spec_prefixed(next@) =~= spec_prefixed(c@));
                }
                rest = next;
            },
            Option::None => {
                proof {
                    crate::text::lemma_find_from(rest@, seq!['\n'], 0);
                }
                extend_str(&mut out, "  \u{254e}");
                extend_chars(&mut out, &rest);
                proof {
                    assert(out@ =~= spec_prefixed(c@));
                }
                return string_from_chars(&out);
            },
        }
    }
}

/// Whether every captured snapshot equals what the document already records
/// under the step's `snapshot_content` key, prefix included.
pub open spec fn snapshots_unchanged(steps: Seq<StepView>) -> bool {
    forall|i: int|
        0 <= i < steps.len() ==> match #[trigger] steps[i] {
            StepView::Snapshot { snapshot_content, args, .. } => match snapshot_content {
                Option::Some(captured) => args_lookup(args, "snapshot_content"@)
                    == Option::Some(JsonView::Str(spec_prefixed(captured))),
                Option::None => true,
            },
            _ => true,
        }
}

/// Whether every captured snapshot matches the recorded one (executable).
fn check_snapshots_unchanged(steps: &Vec<ToolproofTestStep>) -> (r: bool)
    ensures
        r == snapshots_unchanged(steps_view(steps@)),
{
    proof {
        crate::lemma_steps_view(steps@);
    }
    let ghost model = steps_view(steps@);
    let mut i: usize = 0;
    while i < steps.len()
        invariant
            i <= steps@.len(),
            model == steps_view(steps@),
            model.len() == steps@.len(),
            forall|j: int|
                0 <= j < steps@.len() ==> #[trigger] model[j] == crate::step_view(steps@[j]),
            forall|j: int|
                0 <= j < i ==> match #[trigger] model[j] {
                    StepView::Snapshot { snapshot_content, args, .. } => match snapshot_content {
                        Option::Some(captured) => args_lookup(args, "snapshot_content"@)
                            == Option::Some(JsonView::Str(spec_prefixed(captured))),
                        Option::None => true,
                    },
                    _ => true,
                },
        decreases steps@.len() - i,
    {
        match &steps[i] {
            ToolproofTestStep::Snapshot { snapshot_content, args, .. } => {
                match snapshot_content {
                    Option::Some(captured) => {
                        let rendered = prefixed_content(captured.as_str());
                        match crate::segments::args_find(args, "snapshot_content") {
                            Option::Some(JsonValue::Str(stored)) => {
                                let a = chars_of(stored.as_str());
                                let b = chars_of(rendered.as_str());
                                if !crate::text::chars_equal(&a, &b) {
                                    proof {
                                        assert(model[i as int] matches StepView::Snapshot {
                                            snapshot_content: Option::Some(cap),
                                            args: ar,
                                            ..
                                        } && args_lookup(ar, "snapshot_content"@) != Option::Some(
                                            JsonView::Str(spec_prefixed(cap)),
                                        ));
                                        assert(!snapshots_unchanged(model));
                                    }
                                    return false;
                                }
                            },
                            other => {
                                proof {
                                    assert(model[i as int] matches StepView::Snapshot {
                                        snapshot_content: Option::Some(cap),
                                        args: ar,
                                        ..
                                    } && args_lookup(ar, "snapshot_content"@) != Option::Some(
                                        JsonView::Str(spec_prefixed(cap)),
                                    ));
                                    assert(!snapshots_unchanged(model));
                                }
                                return false;
                            },
                        }
                    },
                    Option::None => {},
                }
            },
            _ => {},
        }
        i += 1;
    }
    true
}

/// The document's lines: split on every newline, the text after the last
/// newline (possibly empty) forming the final line.
pub open spec fn spec_doc_lines(s: Seq<char>) -> Seq<Seq<char>>
    decreases s.len() via spec_doc_lines_decreases
{
    match spec_find(s, seq!['\n']) {
        Option::None => seq![s],
        Option::Some(k) => seq![s.take(k)] + spec_doc_lines(s.skip(k + 1)),
    }
}

#[via_fn]
proof fn spec_doc_lines_decreases(s: Seq<char>) {
    crate::text::lemma_find_from(s, seq!['\n'], 0);
}

/// Lines joined back with a newline between them.
pub open spec fn spec_doc_join(lines: Seq<Seq<char>>) -> Seq<char>
    decreases lines.len(),
{
    if lines.len() == 0 {
        Seq::empty()
    } else if lines.len() == 1 {
        lines[0]
    } else {
        lines[0] + seq!['\n'] + spec_doc_join(lines.drop_first())
    }
}

/// `n` spaces.
pub open spec fn spec_sp(n: int) -> Seq<char>
    decreases n,
{
    if n <= 0 {
        Seq::empty()
    } else {
        seq![' '] + spec_sp(n - 1)
    }
}

/// The indentation is all spaces.
proof fn lemma_sp_all(n: int)
    ensures
        spec_sp(n).len() == (if n <= 0 {
            0int
        } else {
            n
        }),
        forall|i: int| 0 <= i < spec_sp(n).len() ==> spec_sp(n)[i] == ' ',
    decreases n,
{
    if n > 0 {
        lemma_sp_all(n - 1);
    }
}

/// How many spaces a line starts with.
pub open spec fn spec_indent(line: Seq<char>) -> int
    decreases line.len(),
{
    if line.len() == 0 || line[0] != ' ' {
        0
    } else {
        1 + spec_indent(line.drop_first())
    }
}

/// Whether a line opens a block-sequence item: `- ` after its indentation.
pub open spec fn spec_is_item(line: Seq<char>) -> bool {
    spec_indent(line) + 1 < line.len() && line[spec_indent(line)] == '-' && line[spec_indent(line)
        + 1] == ' '
}

/// Whether a line is a `snapshot_content:` key after its indentation.
pub open spec fn spec_has_key(line: Seq<char>) -> bool {
    spec_indent(line) + "snapshot_content:"@.len() <= line.len() && line.subrange(
        spec_indent(line),
        spec_indent(line) + "snapshot_content:"@.len(),
    ) == "snapshot_content:"@
}

/// Whether a line closes the item of the given indentation: non-blank and no
/// deeper indented.
pub open spec fn spec_item_end(line: Seq<char>, item_indent: int) -> bool {
    line.len() > 0 && spec_indent(line) <= item_indent
}

/// What the step at this index captured, if it is a snapshot that did.
pub open spec fn spec_capture(steps: Seq<StepView>, idx: int) -> Option<Seq<char>> {
    if 0 <= idx < steps.len() {
        match steps[idx] {
            StepView::Snapshot { snapshot_content: Option::Some(c), .. } => Option::Some(c),
            _ => Option::None,
        }
    } else {
        Option::None
    }
}

/// Every line prefixed with `pad` spaces.
pub open spec fn spec_pad_lines(lines: Seq<Seq<char>>, pad: int) -> Seq<Seq<char>>
    decreases lines.len(),
{
    if lines.len() == 0 {
        Seq::empty()
    } else {
        seq![spec_sp(pad) + lines[0]] + spec_pad_lines(lines.drop_first(), pad)
    }
}

/// A captured snapshot as document lines: the `snapshot_content: |-` key at
/// the given indentation, then each sentinel-prefixed capture line two spaces
/// deeper.
pub open spec fn spec_block_lines(content: Seq<char>, indent: int) -> Seq<Seq<char>> {
    seq![spec_sp(indent) + "snapshot_content: |-"@] + spec_pad_lines(
        spec_doc_lines(spec_prefixed(content)),
        indent + 2,
    )
}

/// The first line at or after `j` that no longer belongs to a block under a
/// key of the given indentation: neither blank nor deeper indented.
pub open spec fn spec_skip_block(lines: Seq<Seq<char>>, j: int, indent: int) -> int
    decreases lines.len() - j + 1,
{
    if j < 0 || j >= lines.len() {
        lines.len() as int
    } else if lines[j].len() == 0 || spec_indent(lines[j]) > indent {
        spec_skip_block(lines, j + 1, indent)
    } else {
        j
    }
}

/// The skipped range stays within the document and moves forward.
pub proof fn lemma_skip_block_bounds(lines: Seq<Seq<char>>, j: int, indent: int)
    requires
        0 <= j <= lines.len(),
    ensures
        j <= spec_skip_block(lines, j, indent) <= lines.len(),
    decreases lines.len() - j + 1,
{
    if j < lines.len() && (lines[j].len() == 0 || spec_indent(lines[j]) > indent) {
        lemma_skip_block_bounds(lines, j + 1, indent);
    }
}

/// The rewritten document, line by line. The scan walks the lines once: after
/// the top-level `steps:` key, each `- ` line opens the next step item; an
/// item whose step captured a snapshot is *pending* until its
/// `snapshot_content:` key is found — which is then replaced, old block and
/// all, by the new literal block at the key's indentation — or until the item
/// ends, where the new block is inserted two spaces under the item. Every
/// other line passes through unchanged.
pub open spec fn spec_rewrite(
    lines: Seq<Seq<char>>,
    steps: Seq<StepView>,
    i: int,
    seen: bool,
    item_indent: int,
    step_idx: int,
    pending: bool,
) -> Seq<Seq<char>>
    decreases lines.len() - i, (if pending {
        1int
    } else {
        0int
    }) via spec_rewrite_decreases
{
    if i < 0 || i >= lines.len() {
        if pending {
            match spec_capture(steps, step_idx) {
                Option::Some(c) => spec_block_lines(c, item_indent + 2),
                Option::None => Seq::empty(),
            }
        } else {
            Seq::empty()
        }
    } else {
        let line = lines[i];
        if pending && spec_item_end(line, item_indent) {
            (match spec_capture(steps, step_idx) {
                Option::Some(c) => spec_block_lines(c, item_indent + 2),
                Option::None => Seq::empty(),
            }) + spec_rewrite(lines, steps, i, seen, item_indent, step_idx, false)
        } else if !seen && line == "steps:"@ {
            seq![line] + spec_rewrite(lines, steps, i + 1, true, item_indent, step_idx, pending)
        } else if seen && spec_is_item(line) {
            seq![line] + spec_rewrite(
                lines,
                steps,
                i + 1,
                seen,
                spec_indent(line),
                step_idx + 1,
                spec_capture(steps, step_idx + 1) is Some,
            )
        } else if pending && spec_has_key(line) {
            (match spec_capture(steps, step_idx) {
                Option::Some(c) => spec_block_lines(c, spec_indent(line)),
                Option::None => Seq::empty(),
            }) + spec_rewrite(
                lines,
                steps,
                spec_skip_block(lines, i + 1, spec_indent(line)),
                seen,
                item_indent,
                step_idx,
                false,
            )
        } else {
            seq![line] + spec_rewrite(lines, steps, i + 1, seen, item_indent, step_idx, pending)
        }
    }
}

#[via_fn]
proof fn spec_rewrite_decreases(
    lines: Seq<Seq<char>>,
    steps: Seq<StepView>,
    i: int,
    seen: bool,
    item_indent: int,
    step_idx: int,
    pending: bool,
) {
    if 0 <= i < lines.len() {
        lemma_skip_block_bounds(lines, i + 1, spec_indent(lines[i]));
    }
}

/// The whole rewritten document.
pub open spec fn spec_rewritten(doc: Seq<char>, steps: Seq<StepView>) -> Seq<char> {
    spec_doc_join(spec_rewrite(spec_doc_lines(doc), steps, 0, false, -1, -1, false))
}

/// The original document with every captured snapshot written back in. When
/// every captured snapshot equals what the document already records, the
/// document is reproduced byte for byte; otherwise the document is rewritten
/// per [`spec_rewrite`]: each pending step's `snapshot_content` block is
/// replaced by (or the item gains) the strip-chomped literal block of
/// sentinel-prefixed capture lines, every other line unchanged.
pub fn write_yaml_snapshots(input_doc: &str, file: &ToolproofTestFile) -> (r: String)
    ensures
        snapshots_unchanged(steps_view(file.steps@)) ==> r@ == input_doc@,
        !snapshots_unchanged(steps_view(file.steps@)) ==> r@ == spec_rewritten(
            input_doc@,
            steps_view(file.steps@),
        ),
{
    if check_snapshots_unchanged(&file.steps) {
        let cs = chars_of(input_doc);
        return string_from_chars(&cs);
    }
    rewrite_snapshots(input_doc, &file.steps)
}

/// The string of the characters `cs[a..b]`.
fn range_string(cs: &Vec<char>, a: usize, b: usize) -> (r: String)
    requires
        a <= b <= cs@.len(),
    ensures
        r@ == cs@.subrange(a as int, b as int),
{
    let part = crate::text::sub_chars(cs, a, b);
    string_from_chars(&part)
}

/// Split a document into its lines (executable).
#[verifier::loop_isolation(false)]
fn split_lines(s: &str) -> (r: Vec<String>)
    ensures
        r.deep_view() == spec_doc_lines(s@),
{
    let cs = chars_of(s);
    let newline: Vec<char> = vec!['\n'];
    proof {
        assert(newline@ =~= seq!['\n']);
    }
    let mut lines: Vec<String> = Vec::new();
    let mut start: usize = 0;
    let n = cs.len();
    proof {
        assert(cs@.skip(0) =~= cs@);
        assert(lines.deep_view() + spec_doc_lines(cs@.skip(0)) =~= spec_doc_lines(s@));
    }
    loop
        invariant
            start <= n,
            n == cs@.len(),
            cs@ == s@,
            newline@ == seq!['\n'],
            lines.deep_view() + spec_doc_lines(cs@.skip(start as int)) == spec_doc_lines(s@),
        decreases n - start,
    {
        let rest = crate::text::sub_chars(&cs, start, n);
        let ghost tail = cs@.skip(start as int);
        let ghost old_lines = lines.deep_view();
        match crate::text::find_chars(&rest, &newline) {
            Option::Some(k) => {
                proof {
                    crate::text::lemma_find_from(tail, seq!['\n'], 0);
                    assert(crate::text::occurs_at(tail, seq!['\n'], k as int));
                }
                lines.push(range_string(&cs, start, start + k));
                proof {
                    assert(cs@.subrange(start as int, start + k) =~= tail.take(k as int));
                    assert(lines.deep_view() =~= old_lines.push(tail.take(k as int)));
                    assert(cs@.skip(start + k + 1) =~= tail.skip(k + 1));
                    assert(old_lines + (seq![tail.take(k as int)] + spec_doc_lines(
                        tail.skip(k + 1),
                    )) =~= lines.deep_view() + spec_doc_lines(tail.skip(k + 1)));
                }
                start = start + k + 1;
            },
            Option::None => {
                proof {
                    crate::text::lemma_find_from(tail, seq!['\n'], 0);
                }
                lines.push(range_string(&cs, start, n));
                proof {
                    assert(cs@.subrange(start as int, n as int) =~= tail);
                    assert(lines.deep_view() =~= old_lines.push(tail));
                    assert(old_lines + seq![tail] =~= lines.deep_view());
                    assert(lines.deep_view() =~= spec_doc_lines(s@));
                }
                return lines;
            },
        }
    }
}

/// Join lines back into a document (executable).
#[verifier::loop_isolation(false)]
fn join_doc_lines(lines: &Vec<String>) -> (r: String)
    ensures
        r@ == spec_doc_join(lines.deep_view()),
{
    let ghost model = lines.deep_view();
    let mut out: Vec<char> = Vec::new();
    let mut i: usize = 0;
    proof {
        assert(model.skip(0) =~= model);
    }
    while i < lines.len()
        invariant
            i <= lines@.len(),
            model.len() == lines@.len(),
            forall|j: int| 0 <= j < lines@.len() ==> #[trigger] model[j] == lines@[j]@,
            out@ + spec_doc_join(model.skip(i as int)) == spec_doc_join(model),
        decreases lines@.len() - i,
    {
        let ghost tail = model.skip(i as int);
        extend_str(&mut out, lines[i].as_str());
        proof {
            assert(tail[0] == model[i as int]);
            assert(tail.drop_first() =~= model.skip(i + 1));
        }
        if i + 1 < lines.len() {
            out.push('\n');
            proof {
                assert(out@ + spec_doc_join(model.skip(i + 1)) =~= spec_doc_join(model));
            }
        } else {
            proof {
                assert(model.skip(i + 1) =~= Seq::<Seq<char>>::empty());
                assert(out@ + spec_doc_join(model.skip(i + 1)) =~= spec_doc_join(model));
            }
        }
        i += 1;
    }
    proof {
        assert(model.skip(model.len() as int) =~= Seq::<Seq<char>>::empty());
        assert(out@ =~= spec_doc_join(model));
    }
    string_from_chars(&out)
}

/// How many spaces a line starts with (executable).
fn leading_spaces(line: &Vec<char>) -> (r: usize)
    ensures
        r as int == spec_indent(line@),
        r <= line@.len(),
    decreases line@.len(),
{
    if line.len() == 0 {
        return 0;
    }
    if line[0] != ' ' {
        return 0;
    }
    let rest = crate::text::sub_chars(line, 1, line.len());
    proof {
        assert(rest@ =~= line@.drop_first());
    }
    let inner = leading_spaces(&rest);
    inner + 1
}

/// Push `n` spaces onto a line.
fn push_spaces(line: &mut Vec<char>, n: usize)
    ensures
        final(line)@.len() == old(line)@.len() + n,
        forall|i: int|
            0 <= i < final(line)@.len() ==> final(line)@[i] == (if i < old(line)@.len() {
                old(line)@[i]
            } else {
                ' '
            }),
    decreases n,
{
    if n == 0 {
        return ;
    }
    line.push(' ');
    push_spaces(line, n - 1);
}

/// Append the new literal block for a capture. The key line is indented
/// `base + extra` spaces and the body two more, with the additions done by
/// repeated pushes so no width can overflow.
#[verifier::loop_isolation(false)]
fn push_block_lines(out: &mut Vec<String>, content: &str, base: usize, extra: usize)
    requires
        extra <= 4,
    ensures
        final(out).deep_view() == old(out).deep_view() + spec_block_lines(
            content@,
            base + extra as int,
        ),
{
    let ghost key_indent: int = base as int + extra as int;
    let mut key_line: Vec<char> = Vec::new();
    push_spaces(&mut key_line, base);
    let mut e: usize = 0;
    while e < extra
        invariant
            e <= extra,
            key_line@.len() == base + e,
            forall|i: int| 0 <= i < key_line@.len() ==> key_line@[i] == ' ',
        decreases extra - e,
    {
        key_line.push(' ');
        e += 1;
    }
    proof {
        lemma_sp_all(key_indent);
        assert(key_line@ =~= spec_sp(key_indent));
    }
    extend_str(&mut key_line, "snapshot_content: |-");
    let ghost old_out = out.deep_view();
    out.push(string_from_chars(&key_line));
    proof {
        assert(out.deep_view() =~= old_out.push(spec_sp(key_indent) + "snapshot_content: |-"@));
    }
    let rendered = prefixed_content(content);
    let body = split_lines(rendered.as_str());
    let ghost body_model = spec_doc_lines(spec_prefixed(content@));
    let mut i: usize = 0;
    proof {
        assert(body_model.skip(0) =~= body_model);
        assert((old_out + spec_block_lines(content@, key_indent)) =~= out.deep_view()
            + spec_pad_lines(body_model, key_indent + 2));
    }
    while i < body.len()
        invariant
            i <= body@.len(),
            body.deep_view() == body_model,
            body_model.len() == body@.len(),
            forall|j: int| 0 <= j < body@.len() ==> #[trigger] body_model[j] == body@[j]@,
            out.deep_view() + spec_pad_lines(body_model.skip(i as int), key_indent + 2) == old_out
                + spec_block_lines(content@, key_indent),
        decreases body@.len() - i,
    {
        let ghost tail = body_model.skip(i as int);
        let mut padded: Vec<char> = Vec::new();
        push_spaces(&mut padded, base);
        let mut e2: usize = 0;
        while e2 < extra + 2
            invariant
                e2 <= extra + 2,
                extra <= 4,
                padded@.len() == base + e2,
                forall|m: int| 0 <= m < padded@.len() ==> padded@[m] == ' ',
            decreases extra + 2 - e2,
        {
            padded.push(' ');
            e2 += 1;
        }
        proof {
            lemma_sp_all(key_indent + 2);
            assert(padded@ =~= spec_sp(key_indent + 2));
        }
        extend_str(&mut padded, body[i].as_str());
        let ghost before = out.deep_view();
        out.push(string_from_chars(&padded));
        proof {
            assert(tail[0] == body_model[i as int]);
            assert(tail.drop_first() =~= body_model.skip(i + 1));
            assert(out.deep_view() =~= before.push(spec_sp(key_indent + 2) + body_model[i as int]));
            assert(out.deep_view() + spec_pad_lines(body_model.skip(i + 1), key_indent + 2)
                =~= before + spec_pad_lines(tail, key_indent + 2));
        }
        i += 1;
    }
    proof {
        assert(body_model.skip(body_model.len() as int) =~= Seq::<Seq<char>>::empty());
        assert(spec_pad_lines(Seq::<Seq<char>>::empty(), key_indent + 2) == Seq::<
            Seq<char>,
        >::empty());
        assert(out.deep_view() + Seq::<Seq<char>>::empty() =~= out.deep_view());
    }
}

/// Whether the line holds the `snapshot_content:` key after its indentation
/// (executable).
#[verifier::loop_isolation(false)]
fn has_key_at(line: &Vec<char>, at: usize) -> (r: bool)
    requires
        at as int == spec_indent(line@),
        at <= line@.len(),
    ensures
        r == spec_has_key(line@),
{
    let kc = chars_of("snapshot_content:");
    let llen = line.len();
    if kc.len() > llen - at {
        return false;
    }
    let mut j: usize = 0;
    while j < kc.len()
        invariant
            j <= kc@.len(),
            at + kc@.len() <= llen,
            llen == line@.len(),
            kc@ == "snapshot_content:"@,
            forall|m: int| 0 <= m < j ==> line@[at + m] == kc@[m],
        decreases kc@.len() - j,
    {
        if line[at + j] != kc[j] {
            proof {
                assert(line@.subrange(at as int, at + kc@.len() as int)[j as int] == line@[at + j]);
            }
            return false;
        }
        j += 1;
    }
    proof {
        assert(line@.subrange(at as int, at + kc@.len() as int) =~= kc@);
    }
    true
}

/// What the step at this index captured, if it is a snapshot that did
/// (executable).
fn capture_of(steps: &Vec<ToolproofTestStep>, idx: usize) -> (r: Option<String>)
    ensures
        match r {
            Option::Some(c) => spec_capture(steps_view(steps@), idx as int) == Option::Some(c@),
            Option::None => spec_capture(steps_view(steps@), idx as int) is None,
        },
{
    proof {
        crate::lemma_steps_view(steps@);
    }
    if idx >= steps.len() {
        return Option::None;
    }
    match &steps[idx] {
        ToolproofTestStep::Snapshot { snapshot_content: Option::Some(c), .. } => Option::Some(
            c.clone(),
        ),
        _ => Option::None,
    }
}

/// Rewrite the document line by line, per [`spec_rewrite`].
#[verifier::loop_isolation(false)]
#[verifier::rlimit(100)]
fn rewrite_snapshots(input_doc: &str, steps: &Vec<ToolproofTestStep>) -> (r: String)
    ensures
        r@ == spec_rewritten(input_doc@, steps_view(steps@)),
{
    let ghost smodel = steps_view(steps@);
    let lines = split_lines(input_doc);
    let ghost lmodel = spec_doc_lines(input_doc@);
    let n = lines.len();
    let steps_key = chars_of("steps:");
    let mut out: Vec<String> = Vec::new();
    let mut i: usize = 0;
    let mut seen = false;
    let mut have_item = false;
    let mut item_indent: usize = 0;
    let mut step_idx: usize = 0;
    let mut pending = false;
    let ghost total = spec_rewrite(lmodel, smodel, 0, false, -1, -1, false);
    proof {
        assert(out.deep_view() + total =~= total);
    }
    while i < n || pending
        invariant
            i <= n,
            n == lines@.len(),
            lmodel.len() == lines@.len(),
            lines.deep_view() == lmodel,
            forall|j: int| 0 <= j < lines@.len() ==> #[trigger] lmodel[j] == lines@[j]@,
            steps_key@ == "steps:"@,
            smodel == steps_view(steps@),
            !have_item ==> !pending,
            have_item ==> step_idx < i,
            pending ==> have_item,
            pending ==> spec_capture(smodel, step_idx as int) is Some,
            seen ==> i >= 1,
            out.deep_view() + spec_rewrite(
                lmodel,
                smodel,
                i as int,
                seen,
                if have_item {
                    item_indent as int
                } else {
                    -1
                },
                if have_item {
                    step_idx as int
                } else {
                    -1
                },
                pending,
            ) == total,
        decreases n - i, (if pending {
            1int
        } else {
            0int
        }),
    {
        let ghost st_indent: int = if have_item {
            item_indent as int
        } else {
            -1
        };
        let ghost st_idx: int = if have_item {
            step_idx as int
        } else {
            -1
        };
        let ghost old_out = out.deep_view();
        let ghost here = spec_rewrite(lmodel, smodel, i as int, seen, st_indent, st_idx, pending);
        if i >= n {
            // Only a pending insertion is left, at the end of the document.
            match capture_of(steps, step_idx) {
                Option::Some(content) => {
                    push_block_lines(&mut out, content.as_str(), item_indent, 2);
                    pending = false;
                    proof {
                        assert(here =~= spec_block_lines(content@, st_indent + 2));
                        assert(out.deep_view() =~= old_out + here);
                        assert(out.deep_view() + spec_rewrite(
                            lmodel,
                            smodel,
                            i as int,
                            seen,
                            st_indent,
                            st_idx,
                            false,
                        ) =~= total);
                    }
                },
                Option::None => {
                    proof {
                        assert(false);
                    }
                    pending = false;
                },
            }
            continue ;
        }
        let lc = chars_of(lines[i].as_str());
        proof {
            assert(lc@ == lmodel[i as int]);
        }
        let ind = leading_spaces(&lc);
        let is_end = pending && lc.len() > 0 && ind <= item_indent;
        if is_end {
            match capture_of(steps, step_idx) {
                Option::Some(content) => {
                    push_block_lines(&mut out, content.as_str(), item_indent, 2);
                    pending = false;
                    proof {
                        assert(spec_item_end(lmodel[i as int], st_indent));
                        assert(here =~= spec_block_lines(content@, st_indent + 2) + spec_rewrite(
                            lmodel,
                            smodel,
                            i as int,
                            seen,
                            st_indent,
                            st_idx,
                            false,
                        ));
                        assert(out.deep_view() + spec_rewrite(
                            lmodel,
                            smodel,
                            i as int,
                            seen,
                            st_indent,
                            st_idx,
                            false,
                        ) =~= total);
                    }
                },
                Option::None => {
                    proof {
                        assert(false);
                    }
                    pending = false;
                },
            }
            continue ;
        }
        let is_steps_key = !seen && crate::text::chars_equal(&lc, &steps_key);
        let is_item = seen && ind < lc.len() && ind + 1 < lc.len() && lc[ind] == '-'
            && lc[ind + 1] == ' ';
        let is_key = pending && has_key_at(&lc, ind);
        if is_steps_key {
            out.push(range_string(&lc, 0, lc.len()));
            proof {
                assert(lc@.subrange(0, lc@.len() as int) =~= lmodel[i as int]);
                assert(out.deep_view() =~= old_out.push(lmodel[i as int]));
                assert(here =~= seq![lmodel[i as int]] + spec_rewrite(
                    lmodel,
                    smodel,
                    i + 1,
                    true,
                    st_indent,
                    st_idx,
                    pending,
                ));
                assert(out.deep_view() + spec_rewrite(
                    lmodel,
                    smodel,
                    i + 1,
                    true,
                    st_indent,
                    st_idx,
                    pending,
                ) =~= total);
            }
            seen = true;
            i += 1;
        } else if is_item {
            let next_idx: usize = if have_item {
                step_idx + 1
            } else {
                0
            };
            pending = capture_of(steps, next_idx).is_some();
            out.push(range_string(&lc, 0, lc.len()));
            proof {
                assert(spec_is_item(lmodel[i as int]));
                assert(next_idx as int == st_idx + 1);
                assert(lc@.subrange(0, lc@.len() as int) =~= lmodel[i as int]);
                assert(out.deep_view() =~= old_out.push(lmodel[i as int]));
                assert(here =~= seq![lmodel[i as int]] + spec_rewrite(
                    lmodel,
                    smodel,
                    i + 1,
                    seen,
                    ind as int,
                    st_idx + 1,
                    spec_capture(smodel, st_idx + 1) is Some,
                ));
                assert(out.deep_view() + spec_rewrite(
                    lmodel,
                    smodel,
                    i + 1,
                    seen,
                    ind as int,
                    st_idx + 1,
                    spec_capture(smodel, st_idx + 1) is Some,
                ) =~= total);
            }
            have_item = true;
            item_indent = ind;
            step_idx = next_idx;
            i += 1;
        } else if is_key {
            match capture_of(steps, step_idx) {
                Option::Some(content) => {
                    push_block_lines(&mut out, content.as_str(), ind, 0);
                },
                Option::None => {
                    proof {
                        assert(false);
                    }
                },
            }
            // Skip the replaced block: blank or deeper-indented lines.
            let mut j: usize = i + 1;
            while j < n
                invariant
                    i < j <= n,
                    n == lines@.len(),
                    lmodel.len() == lines@.len(),
                    forall|m: int| 0 <= m < lines@.len() ==> #[trigger] lmodel[m] == lines@[m]@,
                    spec_skip_block(lmodel, i + 1, ind as int) == spec_skip_block(
                        lmodel,
                        j as int,
                        ind as int,
                    ),
                decreases n - j,
            {
                let next = chars_of(lines[j].as_str());
                let next_indent = leading_spaces(&next);
                if next.len() == 0 || next_indent > ind {
                    proof {
                        assert(spec_skip_block(lmodel, j as int, ind as int) == spec_skip_block(
                            lmodel,
                            j + 1,
                            ind as int,
                        ));
                    }
                    j += 1;
                } else {
                    break ;
                }
            }
            proof {
                assert(spec_has_key(lmodel[i as int]));
                assert(spec_skip_block(lmodel, i + 1, ind as int) == j as int);
                assert(here =~= spec_block_lines(
                    spec_capture(smodel, st_idx)->Some_0,
                    ind as int,
                ) + spec_rewrite(lmodel, smodel, j as int, seen, st_indent, st_idx, false));
                assert(out.deep_view() + spec_rewrite(
                    lmodel,
                    smodel,
                    j as int,
                    seen,
                    st_indent,
                    st_idx,
                    false,
                ) =~= total);
            }
            pending = false;
            i = j;
        } else {
            out.push(range_string(&lc, 0, lc.len()));
            proof {
                assert(lc@.subrange(0, lc@.len() as int) =~= lmodel[i as int]);
                assert(out.deep_view() =~= old_out.push(lmodel[i as int]));
                assert(here =~= seq![lmodel[i as int]] + spec_rewrite(
                    lmodel,
                    smodel,
                    i + 1,
                    seen,
                    st_indent,
                    st_idx,
                    pending,
                ));
                assert(out.deep_view() + spec_rewrite(
                    lmodel,
                    smodel,
                    i + 1,
                    seen,
                    st_indent,
                    st_idx,
                    pending,
                ) =~= total);
            }
            i += 1;
        }
    }
    proof {
        assert(spec_rewrite(lmodel, smodel, n as int, seen, if have_item {
            item_indent as int
        } else {
            -1
        }, if have_item {
            step_idx as int
        } else {
            -1
        }, false) =~= Seq::<Seq<char>>::empty());
        assert(out.deep_view() + Seq::<Seq<char>>::empty() =~= out.deep_view());
        assert(out.deep_view() =~= total);
    }
    join_doc_lines(&out)
}

} // verus!
