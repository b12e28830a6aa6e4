//! A plain model of JSON values.
//!
//! Step arguments, retrieval results and assertion operands are JSON values.
//! Numbers are carried as their decimal rendering, so that the contracts can
//! speak of the exact text a value prints as; an object is an ordered list of
//! key/value pairs.

use vstd::prelude::*;

verus! {

/// A JSON value as the step logic sees it.
#[derive(Debug)]
pub enum JsonValue {
    Null,
    Bool(bool),
    /// The decimal rendering of the number, e.g. `"3"` or `"2.5"`.
    Number(String),
    Str(String),
    Array(Vec<JsonValue>),
    Object(Vec<(String, JsonValue)>),
}

/// The mathematical shape of a [`JsonValue`]: every string replaced by its
/// sequence of characters.
pub enum JsonView {
    Null,
    Bool(bool),
    Number(Seq<char>),
    Str(Seq<char>),
    Array(Seq<JsonView>),
    Object(Seq<(Seq<char>, JsonView)>),
}

/// The view of a [`JsonValue`].
pub open spec fn json_view(v: JsonValue) -> JsonView
    decreases v via json_view_decreases
{
    match v {
        JsonValue::Null => JsonView::Null,
        JsonValue::Bool(b) => JsonView::Bool(b),
        JsonValue::Number(s) => JsonView::Number(s@),
        JsonValue::Str(s) => JsonView::Str(s@),
        JsonValue::Array(a) => JsonView::Array(json_view_seq(a@)),
        JsonValue::Object(o) => JsonView::Object(json_view_entries(o@)),
    }
}

/// The views of the elements of a JSON array.
pub open spec fn json_view_seq(s: Seq<JsonValue>) -> Seq<JsonView>
    decreases s via json_view_seq_decreases
{
    if s.len() == 0 {
        Seq::empty()
    } else {
        seq![json_view(s[0])] + json_view_seq(s.drop_first())
    }
}

/// The views of the entries of a JSON object.
pub open spec fn json_view_entries(s: Seq<(String, JsonValue)>) -> Seq<(Seq<char>, JsonView)>
    decreases s via json_view_entries_decreases
{
    if s.len() == 0 {
        Seq::empty()
    } else {
        seq![(s[0].0@, json_view(s[0].1))] + json_view_entries(s.drop_first())
    }
}

#[via_fn]
proof fn json_view_decreases(v: JsonValue) {
    broadcast use vstd::std_specs::vec::axiom_vec_decreases_to_view;

}

#[via_fn]
proof fn json_view_seq_decreases(s: Seq<JsonValue>) {
    broadcast use vstd::seq::axiom_seq_index_decreases, vstd::seq::axiom_seq_subrange_decreases;

}

#[via_fn]
proof fn json_view_entries_decreases(s: Seq<(String, JsonValue)>) {
    broadcast use vstd::seq::axiom_seq_index_decreases, vstd::seq::axiom_seq_subrange_decreases;

}

/// `json_view_seq` is the element-wise view.
pub proof fn lemma_json_view_seq(s: Seq<JsonValue>)
    ensures
        json_view_seq(s).len() == s.len(),
        forall|i: int| 0 <= i < s.len() ==> json_view_seq(s)[i] == json_view(#[trigger] s[i]),
    decreases s.len(),
{
    if s.len() > 0 {
        lemma_json_view_seq(s.drop_first());
        assert forall|i: int| 0 <= i < s.len() implies json_view_seq(s)[i] == json_view(
            #[trigger] s[i],
        ) by {
            if i > 0 {
                assert(s.drop_first()[i - 1] == s[i]);
                assert(json_view_seq(s)[i] == json_view_seq(s.drop_first())[i - 1]);
            }
        }
    }
}

/// `json_view_entries` is the entry-wise view.
pub proof fn lemma_json_view_entries(s: Seq<(String, JsonValue)>)
    ensures
        json_view_entries(s).len() == s.len(),
        forall|i: int|
            0 <= i < s.len() ==> json_view_entries(s)[i] == ((#[trigger] s[i]).0@, json_view(
                s[i].1,
            )),
    decreases s.len(),
{
    if s.len() > 0 {
        lemma_json_view_entries(s.drop_first());
        assert forall|i: int| 0 <= i < s.len() implies json_view_entries(s)[i] == ((
        #[trigger] s[i]).0@, json_view(s[i].1)) by {
            if i > 0 {
                assert(s.drop_first()[i - 1] == s[i]);
                assert(json_view_entries(s)[i] == json_view_entries(s.drop_first())[i - 1]);
            }
        }
    }
}

impl View for JsonValue {
    type V = JsonView;

    open spec fn view(&self) -> JsonView {
        json_view(*self)
    }
}

impl Clone for JsonValue {
    #[verifier::loop_isolation(false)]
    fn clone(&self) -> (res: Self)
        ensures
            res@ == self@,
        decreases self,
    {
        broadcast use
            vstd::std_specs::vec::axiom_vec_index_decreases,
            vstd::std_specs::vec::axiom_vec_decreases_to_view,
            vstd::seq::axiom_seq_index_decreases;

        match self {
            JsonValue::Null => JsonValue::Null,
            JsonValue::Bool(b) => JsonValue::Bool(*b),
            JsonValue::Number(s) => JsonValue::Number(s.clone()),
            JsonValue::Str(s) => JsonValue::Str(s.clone()),
            JsonValue::Array(a) => {
                let mut out: Vec<JsonValue> = Vec::new();
                let mut i: usize = 0;
                while i < a.len()
                    invariant
                        i <= a.len(),
                        out@.len() == i,
                        forall|j: int| 0 <= j < i ==> out@[j]@ == a@[j]@,
                    decreases a.len() - i,
                {
                    proof {
                        assert(*a == self->Array_0);
                        assert(decreases_to!(*self => self->Array_0));
                        assert(decreases_to!(self->Array_0 => self->Array_0@));
                        assert(decreases_to!(self->Array_0@ => self->Array_0@[i as int]));
                    }
                    out.push(a[i].clone());
                    i += 1;
                }
                let res = JsonValue::Array(out);
                proof {
                    lemma_json_view_seq(out@);
                    lemma_json_view_seq(a@);
                    assert forall|j: int| 0 <= j < a@.len() implies json_view_seq(out@)[j]
                        == json_view_seq(a@)[j] by {
                        assert(out@[j]@ == a@[j]@);
                    }
                    assert(json_view_seq(out@) =~= json_view_seq(a@));
                }
                res
            }
            JsonValue::Object(o) => {
                let mut out: Vec<(String, JsonValue)> = Vec::new();
                let mut i: usize = 0;
                while i < o.len()
                    invariant
                        i <= o.len(),
                        out@.len() == i,
                        forall|j: int|
                            0 <= j < i ==> out@[j].0@ == o@[j].0@ && out@[j].1@ == o@[j].1@,
                    decreases o.len() - i,
                {
                    proof {
                        assert(*o == self->Object_0);
                        assert(decreases_to!(*self => self->Object_0));
                        assert(decreases_to!(self->Object_0 => self->Object_0@));
                        assert(decreases_to!(self->Object_0@ => self->Object_0@[i as int]));
                        assert(decreases_to!(self->Object_0@[i as int] => self->Object_0@[i as int].1));
                    }
                    let entry = &o[i];
                    out.push((entry.0.clone(), entry.1.clone()));
                    i += 1;
                }
                let res = JsonValue::Object(out);
                proof {
                    lemma_json_view_entries(out@);
                    lemma_json_view_entries(o@);
                    assert forall|j: int| 0 <= j < o@.len() implies json_view_entries(out@)[j]
                        == json_view_entries(o@)[j] by {
                        assert(out@[j].0@ == o@[j].0@ && out@[j].1@ == o@[j].1@);
                    }
                    assert(json_view_entries(out@) =~= json_view_entries(o@));
                }
                res
            }
        }
    }
}

/// The hexadecimal digit character for `d` (lower case).
pub open spec fn spec_hex_digit(d: int) -> char {
    if d == 0 {
        '0'
    } else if d == 1 {
        '1'
    } else if d == 2 {
        '2'
    } else if d == 3 {
        '3'
    } else if d == 4 {
        '4'
    } else if d == 5 {
        '5'
    } else if d == 6 {
        '6'
    } else if d == 7 {
        '7'
    } else if d == 8 {
        '8'
    } else if d == 9 {
        '9'
    } else if d == 10 {
        'a'
    } else if d == 11 {
        'b'
    } else if d == 12 {
        'c'
    } else if d == 13 {
        'd'
    } else if d == 14 {
        'e'
    } else {
        'f'
    }
}

/// How one character renders inside a JSON string: quotes and backslashes are
/// escaped, the named control characters take their short escapes, any other
/// control character renders as `\u00..`, and everything else as itself.
pub open spec fn json_escaped_char(c: char) -> Seq<char> {
    if c == '"' {
        seq!['\\', '"']
    } else if c == '\\' {
        seq!['\\', '\\']
    } else if c == '\u{8}' {
        seq!['\\', 'b']
    } else if c == '\u{c}' {
        seq!['\\', 'f']
    } else if c == '\n' {
        seq!['\\', 'n']
    } else if c == '\r' {
        seq!['\\', 'r']
    } else if c == '\t' {
        seq!['\\', 't']
    } else if (c as u32) < 0x20 {
        seq!['\\', 'u', '0', '0', spec_hex_digit(c as u32 as int / 16), spec_hex_digit(
            c as u32 as int % 16,
        )]
    } else {
        seq![c]
    }
}

/// How a whole string renders inside JSON quotes.
pub open spec fn json_escaped(s: Seq<char>) -> Seq<char>
    decreases s.len(),
{
    if s.len() == 0 {
        Seq::empty()
    } else {
        json_escaped_char(s[0]) + json_escaped(s.drop_first())
    }
}

/// The compact JSON rendering of a value: no spaces, keys in stored order.
pub open spec fn json_of(v: JsonView) -> Seq<char>
    decreases v,
{
    match v {
        JsonView::Null => seq!['n', 'u', 'l', 'l'],
        JsonView::Bool(b) => if b {
            seq!['t', 'r', 'u', 'e']
        } else {
            seq!['f', 'a', 'l', 's', 'e']
        },
        JsonView::Number(s) => s,
        JsonView::Str(s) => seq!['"'] + json_escaped(s) + seq!['"'],
        JsonView::Array(items) => seq!['['] + json_of_items(items) + seq![']'],
        JsonView::Object(entries) => seq!['{'] + json_of_entries(entries) + seq!['}'],
    }
}

/// The comma-separated renderings of array elements.
pub open spec fn json_of_items(items: Seq<JsonView>) -> Seq<char>
    decreases items via json_of_items_decreases
{
    if items.len() == 0 {
        Seq::empty()
    } else if items.len() == 1 {
        json_of(items[0])
    } else {
        json_of(items[0]) + seq![','] + json_of_items(items.drop_first())
    }
}

/// The comma-separated renderings of object entries.
pub open spec fn json_of_entries(entries: Seq<(Seq<char>, JsonView)>) -> Seq<char>
    decreases entries via json_of_entries_decreases
{
    if entries.len() == 0 {
        Seq::empty()
    } else {
        let head = seq!['"'] + json_escaped(entries[0].0) + seq!['"', ':'] + json_of(
            entries[0].1,
        );
        if entries.len() == 1 {
            head
        } else {
            head + seq![','] + json_of_entries(entries.drop_first())
        }
    }
}

#[via_fn]
proof fn json_of_items_decreases(items: Seq<JsonView>) {
    broadcast use vstd::seq::axiom_seq_index_decreases, vstd::seq::axiom_seq_subrange_decreases;

}

#[via_fn]
proof fn json_of_entries_decreases(entries: Seq<(Seq<char>, JsonView)>) {
    broadcast use vstd::seq::axiom_seq_index_decreases, vstd::seq::axiom_seq_subrange_decreases;

}

proof fn lemma_json_escaped_push(s: Seq<char>, c: char)
    ensures
        json_escaped(s.push(c)) == json_escaped(s) + json_escaped_char(c),
    decreases s.len(),
{
    if s.len() == 0 {
        assert(s.push(c)[0] == c);
        assert(s.push(c).drop_first() =~= Seq::<char>::empty());
        assert(json_escaped(Seq::<char>::empty()) == Seq::<char>::empty());
        assert(json_escaped(s.push(c)) =~= json_escaped(s) + json_escaped_char(c));
    } else {
        assert(s.push(c).drop_first() =~= s.drop_first().push(c));
        lemma_json_escaped_push(s.drop_first(), c);
        assert(json_escaped(s.push(c)) =~= json_escaped(s) + json_escaped_char(c));
    }
}

proof fn lemma_json_of_items_push(items: Seq<JsonView>, x: JsonView)
    ensures
        json_of_items(items.push(x)) == if items.len() == 0 {
            json_of(x)
        } else {
            json_of_items(items) + seq![','] + json_of(x)
        },
    decreases items.len(),
{
    if items.len() == 0 {
        assert(items.push(x)[0] == x);
        assert(json_of_items(items.push(x)) == json_of(x));
    } else {
        assert(items.push(x)[0] == items[0]);
        assert(items.push(x).drop_first() =~= items.drop_first().push(x));
        lemma_json_of_items_push(items.drop_first(), x);
        if items.len() == 1 {
            assert(json_of_items(items.push(x)) =~= json_of_items(items) + seq![','] + json_of(
                x,
            ));
        } else {
            assert(json_of_items(items.push(x)) =~= json_of_items(items) + seq![','] + json_of(
                x,
            ));
        }
    }
}

proof fn lemma_json_of_entries_push(entries: Seq<(Seq<char>, JsonView)>, x: (Seq<char>, JsonView))
    ensures
        json_of_entries(entries.push(x)) == if entries.len() == 0 {
            seq!['"'] + json_escaped(x.0) + seq!['"', ':'] + json_of(x.1)
        } else {
            json_of_entries(entries) + seq![','] + (seq!['"'] + json_escaped(x.0) + seq!['"', ':']
                + json_of(x.1))
        },
    decreases entries.len(),
{
    let rendered = seq!['"'] + json_escaped(x.0) + seq!['"', ':'] + json_of(x.1);
    if entries.len() == 0 {
        assert(entries.push(x)[0] == x);
        assert(json_of_entries(entries.push(x)) == rendered);
    } else {
        assert(entries.push(x)[0] == entries[0]);
        assert(entries.push(x).drop_first() =~= entries.drop_first().push(x));
        lemma_json_of_entries_push(entries.drop_first(), x);
        assert(json_of_entries(entries.push(x)) =~= json_of_entries(entries) + seq![',']
            + rendered);
    }
}

fn hex_digit(d: u32) -> (c: char)
    requires
        d < 16,
    ensures
        c == spec_hex_digit(d as int),
{
    match d {
        0 => '0',
        1 => '1',
        2 => '2',
        3 => '3',
        4 => '4',
        5 => '5',
        6 => '6',
        7 => '7',
        8 => '8',
        9 => '9',
        10 => 'a',
        11 => 'b',
        12 => 'c',
        13 => 'd',
        14 => 'e',
        _ => 'f',
    }
}

/// Append the JSON escape of one character to `out`.
fn push_escaped_char(out: &mut Vec<char>, c: char)
    ensures
        final(out)@ == old(out)@ + json_escaped_char(c),
{
    if c == '"' {
        out.push('\\');
        out.push('"');
    } else if c == '\\' {
        out.push('\\');
        out.push('\\');
    } else if c == '\u{8}' {
        out.push('\\');
        out.push('b');
    } else if c == '\u{c}' {
        out.push('\\');
        out.push('f');
    } else if c == '\n' {
        out.push('\\');
        out.push('n');
    } else if c == '\r' {
        out.push('\\');
        out.push('r');
    } else if c == '\t' {
        out.push('\\');
        out.push('t');
    } else if (c as u32) < 0x20 {
        let code = c as u32;
        out.push('\\');
        out.push('u');
        out.push('0');
        out.push('0');
        out.push(hex_digit(code / 16));
        out.push(hex_digit(code % 16));
        proof {
            assert(final(out)@ =~= old(out)@ + json_escaped_char(c));
        }
    } else {
        out.push(c);
        proof {
            assert(final(out)@ =~= old(out)@ + json_escaped_char(c));
        }
    }
    proof {
        assert(final(out)@ =~= old(out)@ + json_escaped_char(c));
    }
}

/// Append the JSON rendering of a string body (without the quotes) to `out`.
fn push_escaped(out: &mut Vec<char>, s: &str)
    ensures
        final(out)@ == old(out)@ + json_escaped(s@),
{
    let cs = crate::text::chars_of(s);
    let mut i: usize = 0;
    proof {
        assert(cs@.take(0) =~= Seq::<char>::empty());
        assert(json_escaped(Seq::<char>::empty()) == Seq::<char>::empty());
        assert(old(out)@ + Seq::<char>::empty() =~= old(out)@);
    }
    while i < cs.len()
        invariant
            i <= cs@.len(),
            cs@ == s@,
            out@ == old(out)@ + json_escaped(cs@.take(i as int)),
        decreases cs@.len() - i,
    {
        proof {
            assert(cs@.take(i + 1) =~= cs@.take(i as int).push(cs@[i as int]));
            lemma_json_escaped_push(cs@.take(i as int), cs@[i as int]);
        }
        push_escaped_char(out, cs[i]);
        i += 1;
    }
    proof {
        assert(cs@.take(cs@.len() as int) =~= cs@);
    }
}

/// Append the compact JSON rendering of `v` to `out`.
#[verifier::loop_isolation(false)]
#[verifier::rlimit(80)]
pub fn push_json(out: &mut Vec<char>, v: &JsonValue)
    ensures
        final(out)@ == old(out)@ + json_of(v@),
    decreases v,
{
    broadcast use
        vstd::std_specs::vec::axiom_vec_index_decreases,
        vstd::std_specs::vec::axiom_vec_decreases_to_view,
        vstd::seq::axiom_seq_index_decreases;

    match v {
        JsonValue::Null => {
            out.push('n');
            out.push('u');
            out.push('l');
            out.push('l');
            proof {
                assert(final(out)@ =~= old(out)@ + json_of(v@));
            }
        }
        JsonValue::Bool(b) => {
            if *b {
                out.push('t');
                out.push('r');
                out.push('u');
                out.push('e');
            } else {
                out.push('f');
                out.push('a');
                out.push('l');
                out.push('s');
                out.push('e');
            }
            proof {
                assert(final(out)@ =~= old(out)@ + json_of(v@));
            }
        }
        JsonValue::Number(s) => {
            crate::text::extend_str(out, s.as_str());
            proof {
                assert(final(out)@ =~= old(out)@ + json_of(v@));
            }
        }
        JsonValue::Str(s) => {
            out.push('"');
            push_escaped(out, s.as_str());
            out.push('"');
            proof {
                assert(final(out)@ =~= old(out)@ + json_of(v@));
            }
        }
        JsonValue::Array(items) => {
            proof {
                lemma_json_view_seq(items@);
            }
            out.push('[');
            let ghost base = out@;
            let mut i: usize = 0;
            proof {
                assert(json_view_seq(items@).take(0) =~= Seq::<JsonView>::empty());
                assert(base + Seq::<char>::empty() =~= base);
            }
            while i < items.len()
                invariant
                    i <= items@.len(),
                    out@ == base + json_of_items(json_view_seq(items@).take(i as int)),
                decreases items@.len() - i,
            {
                proof {
                    assert(decreases_to!(*v => v->Array_0));
                    assert(decreases_to!(v->Array_0 => v->Array_0@));
                    assert(decreases_to!(v->Array_0@ => v->Array_0@[i as int]));
                }
                if i > 0 {
                    out.push(',');
                }
                push_json(out, &items[i]);
                proof {
                    let views = json_view_seq(items@);
                    assert(views.take(i + 1) =~= views.take(i as int).push(views[i as int]));
                    lemma_json_of_items_push(views.take(i as int), views[i as int]);
                    assert(views[i as int] == items@[i as int]@);
                    assert(out@ =~= base + json_of_items(views.take(i + 1)));
                }
                i += 1;
            }
            out.push(']');
            proof {
                let views = json_view_seq(items@);
                assert(views.take(views.len() as int) =~= views);
                assert(final(out)@ =~= old(out)@ + json_of(v@));
            }
        }
        JsonValue::Object(o) => {
            proof {
                lemma_json_view_entries(o@);
            }
            out.push('{');
            let ghost base = out@;
            let mut i: usize = 0;
            proof {
                assert(json_view_entries(o@).take(0) =~= Seq::<(Seq<char>, JsonView)>::empty());
                assert(base + Seq::<char>::empty() =~= base);
            }
            while i < o.len()
                invariant
                    i <= o@.len(),
                    out@ == base + json_of_entries(json_view_entries(o@).take(i as int)),
                decreases o@.len() - i,
            {
                proof {
                    assert(decreases_to!(*v => v->Object_0));
                    assert(decreases_to!(v->Object_0 => v->Object_0@));
                    assert(decreases_to!(v->Object_0@ => v->Object_0@[i as int]));
                    assert(decreases_to!(v->Object_0@[i as int] => v->Object_0@[i as int].1));
                }
                if i > 0 {
                    out.push(',');
                }
                out.push('"');
                push_escaped(out, o[i].0.as_str());
                out.push('"');
                out.push(':');
                push_json(out, &o[i].1);
                proof {
                    let views = json_view_entries(o@);
                    assert(views.take(i + 1) =~= views.take(i as int).push(views[i as int]));
                    lemma_json_of_entries_push(views.take(i as int), views[i as int]);
                    assert(views[i as int] == (o@[i as int].0@, o@[i as int].1@));
                    assert(out@ =~= base + json_of_entries(views.take(i + 1)));
                }
                i += 1;
            }
            out.push('}');
            proof {
                let views = json_view_entries(o@);
                assert(views.take(views.len() as int) =~= views);
                assert(final(out)@ =~= old(out)@ + json_of(v@));
            }
        }
    }
}

impl JsonValue {
    /// The compact JSON rendering of this value, as `serde_json` prints it:
    /// no spaces, keys in stored order, strings escaped.
    pub fn to_json_string(&self) -> (r: String)
        ensures
            r@ == json_of(self@),
    {
        let mut out: Vec<char> = Vec::new();
        push_json(&mut out, self);
        crate::text::string_from_chars(&out)
    }
}

impl vstd::std_specs::cmp::PartialEqSpecImpl for JsonValue {
    open spec fn obeys_eq_spec() -> bool {
        true
    }

    open spec fn eq_spec(&self, other: &Self) -> bool {
        self@ == other@
    }
}

impl PartialEq for JsonValue {
    #[verifier::loop_isolation(false)]
    fn eq(&self, other: &Self) -> (r: bool)
        decreases self,
    {
        broadcast use
            vstd::std_specs::vec::axiom_vec_index_decreases,
            vstd::std_specs::vec::axiom_vec_decreases_to_view,
            vstd::seq::axiom_seq_index_decreases;

        match (self, other) {
            (JsonValue::Null, JsonValue::Null) => true,
            (JsonValue::Bool(a), JsonValue::Bool(b)) => *a == *b,
            (JsonValue::Number(a), JsonValue::Number(b)) => a.eq(b),
            (JsonValue::Str(a), JsonValue::Str(b)) => a.eq(b),
            (JsonValue::Array(a), JsonValue::Array(b)) => {
                proof {
                    lemma_json_view_seq(a@);
                    lemma_json_view_seq(b@);
                }
                if a.len() != b.len() {
                    return false;
                }
                let mut i: usize = 0;
                while i < a.len()
                    invariant
                        i <= a.len(),
                        a.len() == b.len(),
                        forall|j: int| 0 <= j < i ==> a@[j]@ == b@[j]@,
                    decreases a.len() - i,
                {
                    proof {
                        assert(decreases_to!(*self => self->Array_0));
                        assert(decreases_to!(self->Array_0 => self->Array_0@));
                        assert(decreases_to!(self->Array_0@ => self->Array_0@[i as int]));
                    }
                    if !(a[i].eq(&b[i])) {
                        return false;
                    }
                    i += 1;
                }
                proof {
                    assert forall|j: int| 0 <= j < a@.len() implies json_view_seq(a@)[j]
                        == json_view_seq(b@)[j] by {
                        assert(a@[j]@ == b@[j]@);
                    }
                    assert(json_view_seq(a@) =~= json_view_seq(b@));
                }
                true
            }
            (JsonValue::Object(a), JsonValue::Object(b)) => {
                proof {
                    lemma_json_view_entries(a@);
                    lemma_json_view_entries(b@);
                }
                if a.len() != b.len() {
                    return false;
                }
                let mut i: usize = 0;
                while i < a.len()
                    invariant
                        i <= a.len(),
                        a.len() == b.len(),
                        forall|j: int| 0 <= j < i ==> a@[j].0@ == b@[j].0@ && a@[j].1@ == b@[j].1@,
                    decreases a.len() - i,
                {
                    proof {
                        assert(decreases_to!(*self => self->Object_0));
                        assert(decreases_to!(self->Object_0 => self->Object_0@));
                        assert(decreases_to!(self->Object_0@ => self->Object_0@[i as int]));
                        assert(decreases_to!(self->Object_0@[i as int] => self->Object_0@[i as int].1));
                    }
                    if !(a[i].0.eq(&b[i].0)) {
                        proof {
                            assert(a@[i as int].0@ != b@[i as int].0@);
                            assert(json_view_entries(a@)[i as int]
                                != json_view_entries(b@)[i as int]);
                        }
                        return false;
                    }
                    if !(a[i].1.eq(&b[i].1)) {
                        proof {
                            assert(a@[i as int].1@ != b@[i as int].1@);
                            assert(json_view_entries(a@)[i as int]
                                != json_view_entries(b@)[i as int]);
                        }
                        return false;
                    }
                    i += 1;
                }
                proof {
                    assert forall|j: int| 0 <= j < a@.len() implies json_view_entries(a@)[j]
                        == json_view_entries(b@)[j] by {
                        assert(a@[j].0@ == b@[j].0@ && a@[j].1@ == b@[j].1@);
                    }
                    assert(json_view_entries(a@) =~= json_view_entries(b@));
                }
                true
            }
            _ => {
                proof {
                    assert(self@ != other@);
                }
                false
            }
        }
    }
}

impl Eq for JsonValue {

}

} // verus!
