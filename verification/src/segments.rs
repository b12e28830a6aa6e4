//! The segment pattern language.
//!
//! A template such as `I have a {filename} file` tokenizes into literal and
//! variable segments; a user step such as `I have a "foo.txt" file` into
//! literal and value segments. Two sequences match when they have the same
//! length, literals agree position by position, and every value or variable
//! on the left stands opposite a variable on the right. Matching is what
//! registry lookup uses: it erases values and variables alike to wildcards.

use vstd::prelude::*;

use crate::civilization::env_lookup;
use crate::errors::ToolproofInputError;
use crate::json::{json_view_entries, JsonValue, JsonView};
use crate::text::{chars_of, contains_chars, contains_seq, extend_str, replaced, string_from_chars};

verus! {

/// One element of a parsed pattern or user step.
#[derive(Debug)]
pub enum ToolproofSegment {
    /// Literal text, lowercased by the tokenizer.
    Literal(String),
    /// A quoted value in a user step.
    Value(JsonValue),
    /// A `{name}` placeholder in a template (or in a step inside a macro
    /// body, where it refers to a supplied argument).
    Variable(String),
}

/// The mathematical shape of one segment.
pub enum SegView {
    Literal(Seq<char>),
    Value(JsonView),
    Variable(Seq<char>),
}

impl View for ToolproofSegment {
    type V = SegView;

    open spec fn view(&self) -> SegView {
        match self {
            ToolproofSegment::Literal(s) => SegView::Literal(s@),
            ToolproofSegment::Value(v) => SegView::Value(v@),
            ToolproofSegment::Variable(s) => SegView::Variable(s@),
        }
    }
}

impl Clone for ToolproofSegment {
    fn clone(&self) -> (res: Self)
        ensures
            res@ == self@,
    {
        match self {
            ToolproofSegment::Literal(s) => ToolproofSegment::Literal(s.clone()),
            ToolproofSegment::Value(v) => ToolproofSegment::Value(v.clone()),
            ToolproofSegment::Variable(s) => ToolproofSegment::Variable(s.clone()),
        }
    }
}

/// An ordered sequence of segments: a whole pattern or user step.
#[derive(Debug)]
pub struct ToolproofSegments {
    pub segments: Vec<ToolproofSegment>,
}

impl View for ToolproofSegments {
    type V = Seq<SegView>;

    open spec fn view(&self) -> Seq<SegView> {
        Seq::new(self.segments@.len(), |i: int| self.segments@[i]@)
    }
}

impl Clone for ToolproofSegments {
    fn clone(&self) -> (res: Self)
        ensures
            res@ == self@,
    {
        let mut out: Vec<ToolproofSegment> = Vec::new();
        let mut i: usize = 0;
        while i < self.segments.len()
            invariant
                i <= self.segments@.len(),
                out@.len() == i,
                forall|j: int| 0 <= j < i ==> out@[j]@ == self.segments@[j]@,
            decreases self.segments@.len() - i,
        {
            out.push(self.segments[i].clone());
            i += 1;
        }
        let res = ToolproofSegments { segments: out };
        proof {
            assert(res@ =~= self@);
        }
        res
    }
}

impl vstd::std_specs::cmp::PartialEqSpecImpl for ToolproofSegment {
    open spec fn obeys_eq_spec() -> bool {
        true
    }

    open spec fn eq_spec(&self, other: &Self) -> bool {
        self@ == other@
    }
}

impl PartialEq for ToolproofSegment {
    fn eq(&self, other: &Self) -> (r: bool) {
        match (self, other) {
            (ToolproofSegment::Literal(a), ToolproofSegment::Literal(b)) => a.eq(b),
            (ToolproofSegment::Value(a), ToolproofSegment::Value(b)) => a.eq(b),
            (ToolproofSegment::Variable(a), ToolproofSegment::Variable(b)) => a.eq(b),
            _ => {
                proof {
                    assert(self@ != other@);
                }
                false
            },
        }
    }
}

impl Eq for ToolproofSegment {

}

/// Whether a segment of a user step matches a segment of a template: literals
/// compare exactly (they were lowercased when tokenized), and a value or
/// variable on the left matches exactly a variable on the right.
pub open spec fn seg_match(a: SegView, b: SegView) -> bool {
    match a {
        SegView::Literal(l) => b matches SegView::Literal(m) && m == l,
        SegView::Value(_) => b is Variable,
        SegView::Variable(_) => b is Variable,
    }
}

/// Whether a user step matches a template, position by position.
pub open spec fn segments_match(a: Seq<SegView>, b: Seq<SegView>) -> bool {
    a.len() == b.len() && forall|i: int| 0 <= i < a.len() ==> seg_match(#[trigger] a[i], b[i])
}

/// A segment with values and variables erased to a wildcard.
pub enum SegToken {
    Lit(Seq<char>),
    Wild,
}

/// The erasure of one segment.
pub open spec fn erase_seg(s: SegView) -> SegToken {
    match s {
        SegView::Literal(l) => SegToken::Lit(l),
        SegView::Value(_) => SegToken::Wild,
        SegView::Variable(_) => SegToken::Wild,
    }
}

/// The erasure of a sequence of segments: what matching, hashing and the
/// comparison string all depend on.
pub open spec fn erased(s: Seq<SegView>) -> Seq<SegToken> {
    Seq::new(s.len(), |i: int| erase_seg(s[i]))
}

/// Whether a sequence holds no value segment: true of every template.
pub open spec fn value_free(s: Seq<SegView>) -> bool {
    forall|i: int| 0 <= i < s.len() ==> !((#[trigger] s[i]) is Value)
}

/// What `==` on segment sequences means: equal erasures. Two sequences are
/// equal exactly when they have the same length, their literals agree
/// position by position, and a wildcard (a value or a variable, on either
/// side) faces a wildcard. Being equality of erasures, the relation is
/// reflexive, symmetric and transitive, and blind to what the values and
/// variable names hold.
pub open spec fn segments_equal(a: Seq<SegView>, b: Seq<SegView>) -> bool {
    erased(a) == erased(b)
}

impl vstd::std_specs::cmp::PartialEqSpecImpl for ToolproofSegments {
    open spec fn obeys_eq_spec() -> bool {
        true
    }

    open spec fn eq_spec(&self, other: &Self) -> bool {
        segments_equal(self@, other@)
    }
}

impl PartialEq for ToolproofSegments {
    fn eq(&self, other: &Self) -> (r: bool) {
        proof {
            assert(erased(self@).len() == self@.len());
            assert(erased(other@).len() == other@.len());
        }
        if self.segments.len() != other.segments.len() {
            return false;
        }
        let mut i: usize = 0;
        while i < self.segments.len()
            invariant
                i <= self.segments@.len(),
                self.segments@.len() == other.segments@.len(),
                self@.len() == self.segments@.len(),
                other@.len() == other.segments@.len(),
                forall|j: int|
                    0 <= j < i ==> erase_seg(#[trigger] self@[j]) == erase_seg(other@[j]),
            decreases self.segments@.len() - i,
        {
            let ok = match (&self.segments[i], &other.segments[i]) {
                (ToolproofSegment::Literal(l), ToolproofSegment::Literal(m)) => l.eq(m),
                (ToolproofSegment::Literal(_), _) => false,
                (_, ToolproofSegment::Literal(_)) => false,
                (_, _) => true,
            };
            if !ok {
                proof {
                    assert(erased(self@)[i as int] == erase_seg(self@[i as int]));
                    assert(erased(other@)[i as int] == erase_seg(other@[i as int]));
                    assert(erased(self@) != erased(other@));
                }
                return false;
            }
            i += 1;
        }
        proof {
            assert forall|j: int| 0 <= j < erased(self@).len() implies erased(self@)[j] == erased(
                other@,
            )[j] by {
                assert(erase_seg(self@[j]) == erase_seg(other@[j]));
            }
            assert(erased(self@) =~= erased(other@));
        }
        true
    }
}

impl Eq for ToolproofSegments {

}

/// Segment equality is reflexive.
pub proof fn lemma_equal_reflexive(a: Seq<SegView>)
    ensures
        segments_equal(a, a),
{
}

/// Segment equality is symmetric.
pub proof fn lemma_equal_symmetric(a: Seq<SegView>, b: Seq<SegView>)
    requires
        segments_equal(a, b),
    ensures
        segments_equal(b, a),
{
}

/// Segment equality is transitive.
pub proof fn lemma_equal_transitive(a: Seq<SegView>, b: Seq<SegView>, c: Seq<SegView>)
    requires
        segments_equal(a, b),
        segments_equal(b, c),
    ensures
        segments_equal(a, c),
{
}

/// Wildcard invariance: two user sequences that differ only in their value
/// positions have the same erasure — hence the same hash and the same
/// comparison string — and match exactly the same templates.
pub proof fn lemma_wildcard_invariance(a: Seq<SegView>, b: Seq<SegView>, t: Seq<SegView>)
    requires
        a.len() == b.len(),
        forall|i: int|
            0 <= i < a.len() ==> ((#[trigger] a[i]) is Value <==> b[i] is Value) && (!(a[i]
                is Value) ==> a[i] == b[i]),
    ensures
        erased(a) == erased(b),
        segments_equal(a, b),
        spec_hash(a) == spec_hash(b),
        segments_equal(a, t) == segments_equal(b, t),
        segments_match(a, t) == segments_match(b, t),
{
    assert(erased(a) =~= erased(b));
    if segments_match(a, t) {
        assert forall|i: int| 0 <= i < b.len() implies seg_match(#[trigger] b[i], t[i]) by {
            assert(seg_match(a[i], t[i]));
        }
    }
    if segments_match(b, t) {
        assert forall|i: int| 0 <= i < a.len() implies seg_match(#[trigger] a[i], t[i]) by {
            assert(seg_match(b[i], t[i]));
        }
    }
}

/// Registry lookup, mathematically: a user step matches a registered template
/// exactly when the two are equal — same erasure — and then both render to
/// the same comparison string. On templates, the one-sided matching relation
/// and segment equality coincide.
pub proof fn lemma_match_iff_erased(u: Seq<SegView>, t: Seq<SegView>)
    requires
        value_free(t),
    ensures
        segments_match(u, t) <==> segments_equal(u, t),
        segments_match(u, t) <==> erased(u) == erased(t),
        segments_match(u, t) ==> comparison_of(erased(u)) == comparison_of(erased(t)),
{
    if segments_match(u, t) {
        assert(erased(u) =~= erased(t));
    }
    if erased(u) == erased(t) {
        assert(erased(u).len() == u.len());
        assert(erased(t).len() == t.len());
        assert(u.len() == t.len());
        assert forall|i: int| 0 <= i < u.len() implies seg_match(#[trigger] u[i], t[i]) by {
            assert(erased(u)[i] == erase_seg(u[i]));
            assert(erased(t)[i] == erase_seg(t[i]));
            assert(erase_seg(u[i]) == erase_seg(t[i]));
        }
    }
}

/// The offset basis of the FNV-1a hash.
pub const HASH_OFFSET: u64 = 0xcbf29ce484222325;

/// The prime of the FNV-1a hash.
pub const HASH_PRIME: u64 = 0x100000001b3;

/// The code a wildcard token mixes into the hash.
pub const WILDCARD_CODE: u64 = 0;

/// One FNV-1a mixing step.
pub open spec fn hash_step(h: u64, code: u64) -> u64 {
    vstd::wrapping::u64_specs::wrapping_mul(h ^ code, HASH_PRIME)
}

/// FNV-1a over the characters of a literal.
pub open spec fn hash_chars(h: u64, s: Seq<char>) -> u64
    decreases s.len(),
{
    if s.len() == 0 {
        h
    } else {
        hash_chars(hash_step(h, s[0] as u64), s.drop_first())
    }
}

/// The hash after mixing in one erased token: the characters of a literal,
/// or a constant for a wildcard.
pub open spec fn hash_token(h: u64, t: SegToken) -> u64 {
    match t {
        SegToken::Lit(l) => hash_chars(h, l),
        SegToken::Wild => hash_step(h, WILDCARD_CODE),
    }
}

/// The hash after mixing in a sequence of erased tokens.
pub open spec fn hash_tokens(h: u64, toks: Seq<SegToken>) -> u64
    decreases toks.len(),
{
    if toks.len() == 0 {
        h
    } else {
        hash_tokens(hash_token(h, toks[0]), toks.drop_first())
    }
}

/// The hash of a segment sequence: a function of its erasure alone, so that
/// sequences differing only in values or variable names hash alike.
pub open spec fn spec_hash(s: Seq<SegView>) -> u64 {
    hash_tokens(HASH_OFFSET, erased(s))
}

impl ToolproofSegments {
    /// A hash code that mixes the literals only, with a constant for every
    /// value or variable position, so that it respects wildcard matching.
    pub fn hash_code(&self) -> (r: u64)
        ensures
            r == spec_hash(self@),
    {
        let ghost toks = erased(self@);
        proof {
            assert(toks.skip(0) =~= toks);
        }
        let mut h: u64 = HASH_OFFSET;
        let mut i: usize = 0;
        while i < self.segments.len()
            invariant
                i <= self.segments@.len(),
                self@.len() == self.segments@.len(),
                toks == erased(self@),
                hash_tokens(h, toks.skip(i as int)) == spec_hash(self@),
            decreases self.segments@.len() - i,
        {
            proof {
                assert(toks.skip(i as int).drop_first() =~= toks.skip(i + 1));
                assert(toks.skip(i as int)[0] == toks[i as int]);
            }
            match &self.segments[i] {
                ToolproofSegment::Literal(l) => {
                    let cs = chars_of(l.as_str());
                    let ghost h0 = h;
                    proof {
                        assert(cs@.skip(0) =~= cs@);
                    }
                    let mut j: usize = 0;
                    while j < cs.len()
                        invariant
                            j <= cs@.len(),
                            hash_chars(h, cs@.skip(j as int)) == hash_chars(h0, cs@),
                        decreases cs@.len() - j,
                    {
                        proof {
                            assert(cs@.skip(j as int).drop_first() =~= cs@.skip(j + 1));
                            assert(cs@.skip(j as int)[0] == cs@[j as int]);
                        }
                        h = (h ^ (cs[j] as u64)).wrapping_mul(HASH_PRIME);
                        j += 1;
                    }
                    proof {
                        assert(cs@.skip(cs@.len() as int) =~= Seq::<char>::empty());
                        assert(h == hash_token(h0, toks[i as int]));
                    }
                }
                _ => {
                    h = (h ^ WILDCARD_CODE).wrapping_mul(HASH_PRIME);
                }
            }
            i += 1;
        }
        proof {
            assert(toks.skip(toks.len() as int) =~= Seq::<SegToken>::empty());
        }
        h
    }
}

/// The characters a wildcard renders as in a comparison string.
pub open spec fn wildcard_chars() -> Seq<char> {
    seq!['{', '_', '_', '_', '}']
}

/// The characters one erased token contributes to the comparison string.
pub open spec fn token_chars(t: SegToken) -> Seq<char> {
    match t {
        SegToken::Lit(l) => l,
        SegToken::Wild => wildcard_chars(),
    }
}

/// The comparison string of a token sequence: each literal as itself, each
/// wildcard as `{___}`.
pub open spec fn comparison_of(toks: Seq<SegToken>) -> Seq<char>
    decreases toks.len(),
{
    if toks.len() == 0 {
        Seq::empty()
    } else {
        token_chars(toks[0]) + comparison_of(toks.drop_first())
    }
}

proof fn lemma_comparison_push(toks: Seq<SegToken>, t: SegToken)
    ensures
        comparison_of(toks.push(t)) == comparison_of(toks) + token_chars(t),
    decreases toks.len(),
{
    if toks.len() == 0 {
        assert(toks.push(t)[0] == t);
        assert(toks.push(t).drop_first() =~= Seq::<SegToken>::empty());
        assert(comparison_of(Seq::<SegToken>::empty()) == Seq::<char>::empty());
        assert(comparison_of(toks.push(t)) == token_chars(toks.push(t)[0]) + comparison_of(
            toks.push(t).drop_first(),
        ));
        assert(comparison_of(toks.push(t)) =~= token_chars(t));
        assert(comparison_of(toks) + token_chars(t) =~= token_chars(t));
    } else {
        assert(toks.push(t).drop_first() =~= toks.drop_first().push(t));
        lemma_comparison_push(toks.drop_first(), t);
        assert(comparison_of(toks.push(t)) =~= comparison_of(toks) + token_chars(t));
    }
}

/// The names of the variables of a template, in order.
pub open spec fn variable_names_of(s: Seq<SegView>) -> Seq<Seq<char>>
    decreases s.len(),
{
    if s.len() == 0 {
        Seq::empty()
    } else {
        let rest = variable_names_of(s.drop_first());
        match s[0] {
            SegView::Variable(n) => seq![n] + rest,
            _ => rest,
        }
    }
}

proof fn lemma_variable_names_push(s: Seq<SegView>, x: SegView)
    ensures
        variable_names_of(s.push(x)) == variable_names_of(s) + (match x {
            SegView::Variable(n) => seq![n],
            _ => Seq::empty(),
        }),
    decreases s.len(),
{
    let tail: Seq<Seq<char>> = match x {
        SegView::Variable(n) => seq![n],
        _ => Seq::empty(),
    };
    if s.len() == 0 {
        assert(s.push(x)[0] == x);
        assert(s.push(x).drop_first() =~= Seq::<SegView>::empty());
        assert(variable_names_of(Seq::<SegView>::empty()) == Seq::<Seq<char>>::empty());
        assert(variable_names_of(s.push(x)) =~= tail);
        assert(variable_names_of(s) + tail =~= tail);
    } else {
        assert(s.push(x).drop_first() =~= s.drop_first().push(x));
        lemma_variable_names_push(s.drop_first(), x);
        assert(variable_names_of(s.push(x)) =~= variable_names_of(s) + tail);
    }
}

impl ToolproofSegments {
    /// The names of this pattern's variables, in order.
    pub fn get_variable_names(&self) -> (r: Vec<String>)
        ensures
            r.deep_view() == variable_names_of(self@),
    {
        let mut r: Vec<String> = Vec::new();
        let mut i: usize = 0;
        while i < self.segments.len()
            invariant
                i <= self.segments@.len(),
                self@.len() == self.segments@.len(),
                r.deep_view() == variable_names_of(self@.take(i as int)),
            decreases self.segments@.len() - i,
        {
            proof {
                assert(self@.take(i + 1) =~= self@.take(i as int).push(self@[i as int]));
                lemma_variable_names_push(self@.take(i as int), self@[i as int]);
            }
            match &self.segments[i] {
                ToolproofSegment::Variable(name) => {
                    r.push(name.clone());
                    proof {
                        assert(r.deep_view() =~= variable_names_of(self@.take(i + 1)));
                    }
                }
                _ => {
                    proof {
                        assert(r.deep_view() =~= variable_names_of(self@.take(i + 1)));
                    }
                }
            }
            i += 1;
        }
        proof {
            assert(self@.take(self@.len() as int) =~= self@);
        }
        r
    }

    /// The pattern with every value and variable rendered as `{___}`: the
    /// string that fuzzy matching compares.
    pub fn get_comparison_string(&self) -> (r: String)
        ensures
            r@ == comparison_of(erased(self@)),
    {
        let mut out: Vec<char> = Vec::new();
        let mut i: usize = 0;
        while i < self.segments.len()
            invariant
                i <= self.segments@.len(),
                self@.len() == self.segments@.len(),
                out@ == comparison_of(erased(self@).take(i as int)),
            decreases self.segments@.len() - i,
        {
            proof {
                assert(erased(self@).take(i + 1) =~= erased(self@).take(i as int).push(
                    erased(self@)[i as int],
                ));
                lemma_comparison_push(erased(self@).take(i as int), erased(self@)[i as int]);
            }
            match &self.segments[i] {
                ToolproofSegment::Literal(l) => {
                    extend_str(&mut out, l.as_str());
                }
                _ => {
                    out.push('{');
                    out.push('_');
                    out.push('_');
                    out.push('_');
                    out.push('}');
                    proof {
                        assert(out@ =~= comparison_of(erased(self@).take(i as int))
                            + wildcard_chars());
                    }
                }
            }
            i += 1;
        }
        proof {
            assert(erased(self@).take(erased(self@).len() as int) =~= erased(self@));
        }
        string_from_chars(&out)
    }
}


/// The view of a list of placeholder pairs.
pub open spec fn pairs_view(pairs: Seq<(String, String)>) -> Seq<(Seq<char>, Seq<char>)> {
    Seq::new(pairs.len(), |i: int| (pairs[i].0@, pairs[i].1@))
}

/// The index of the first binding of `name` among bound arguments.
pub open spec fn args_index(args: Seq<(Seq<char>, JsonView)>, name: Seq<char>, k: int) -> Option<
    int,
>
    decreases args.len() - k + 1,
{
    if k < 0 || k >= args.len() {
        Option::None
    } else if args[k].0 == name {
        Option::Some(k)
    } else {
        args_index(args, name, k + 1)
    }
}

/// The value bound under `name`, if any.
pub open spec fn args_lookup(args: Seq<(Seq<char>, JsonView)>, name: Seq<char>) -> Option<
    JsonView,
> {
    match args_index(args, name, 0) {
        Option::Some(i) => Option::Some(args[i].1),
        Option::None => Option::None,
    }
}

/// The names bound by the supplied arguments, in order.
pub open spec fn arg_names(args: Seq<(Seq<char>, JsonView)>) -> Seq<Seq<char>> {
    Seq::new(args.len(), |i: int| args[i].0)
}

/// Argument names joined with a comma and space.
pub open spec fn spec_keys_joined(keys: Seq<Seq<char>>) -> Seq<char>
    decreases keys.len(),
{
    if keys.len() == 0 {
        Seq::empty()
    } else if keys.len() == 1 {
        keys[0]
    } else {
        keys[0] + ", "@ + spec_keys_joined(keys.drop_first())
    }
}

/// The wording of the bound-argument listing in error messages.
pub open spec fn spec_has_args(keys: Seq<Seq<char>>) -> Seq<char> {
    if keys.len() == 0 {
        "no arguments"@
    } else {
        spec_keys_joined(keys)
    }
}

/// The names of the arguments in a map, joined for an error message.
#[verifier::loop_isolation(false)]
pub fn has_args_string<V>(args: &Vec<(String, V)>) -> (r: String)
    ensures
        r@ == spec_has_args(Seq::new(args@.len(), |i: int| args@[i].0@)),
{
    let ghost model = Seq::new(args@.len(), |i: int| args@[i].0@);
    if args.len() == 0 {
        let mut out: Vec<char> = Vec::new();
        extend_str(&mut out, "no arguments");
        proof {
            assert(out@ =~= "no arguments"@);
        }
        return string_from_chars(&out);
    }
    let mut out: Vec<char> = Vec::new();
    let mut i: usize = 0;
    proof {
        assert(model.skip(0) =~= model);
    }
    while i < args.len()
        invariant
            i <= args@.len(),
            out@ + spec_keys_joined(model.skip(i as int)) == spec_keys_joined(model),
        decreases args@.len() - i,
    {
        let ghost tail = model.skip(i as int);
        extend_str(&mut out, args[i].0.as_str());
        proof {
            assert(tail[0] == model[i as int]);
            assert(tail.drop_first() =~= model.skip(i + 1));
        }
        if i + 1 < args.len() {
            extend_str(&mut out, ", ");
            proof {
                assert(out@ + spec_keys_joined(model.skip(i + 1)) =~= spec_keys_joined(model));
            }
        } else {
            proof {
                assert(model.skip(i + 1) =~= Seq::<Seq<char>>::empty());
                assert(out@ + spec_keys_joined(model.skip(i + 1)) =~= spec_keys_joined(model));
            }
        }
        i += 1;
    }
    proof {
        assert(model.skip(model.len() as int) =~= Seq::<Seq<char>>::empty());
        assert(out@ =~= spec_keys_joined(model));
    }
    string_from_chars(&out)
}

/// What binding a matched user step against a template yields: at every
/// variable position of the template, the parallel user value is bound to the
/// variable's name; a user variable there (inside a macro body) is resolved
/// among the supplied arguments, and a name those do not bind is the error.
pub open spec fn spec_bind(
    refs: Seq<SegView>,
    sups: Seq<SegView>,
    supplied: Seq<(Seq<char>, JsonView)>,
    i: int,
) -> Result<Seq<(Seq<char>, JsonView)>, Seq<char>>
    decreases refs.len() - i + 1,
{
    if i < 0 || i >= refs.len() || i >= sups.len() {
        Result::Ok(Seq::empty())
    } else {
        let rest = spec_bind(refs, sups, supplied, i + 1);
        match refs[i] {
            SegView::Variable(key) => match sups[i] {
                SegView::Value(v) => match rest {
                    Result::Ok(tail) => Result::Ok(seq![(key, v)] + tail),
                    Result::Err(e) => Result::Err(e),
                },
                SegView::Variable(var) => match args_lookup(supplied, var) {
                    Option::Some(v) => match rest {
                        Result::Ok(tail) => Result::Ok(seq![(key, v)] + tail),
                        Result::Err(e) => Result::Err(e),
                    },
                    Option::None => Result::Err(var),
                },
                SegView::Literal(_) => rest,
            },
            _ => rest,
        }
    }
}

/// Binding is order-preserving and total on matched steps: a successful
/// binding binds exactly the template's variable names, in their order, and
/// binding fails exactly when some user variable among the bound positions is
/// missing from the supplied arguments.
pub proof fn lemma_bind_names(
    refs: Seq<SegView>,
    sups: Seq<SegView>,
    supplied: Seq<(Seq<char>, JsonView)>,
    i: int,
)
    requires
        0 <= i <= refs.len(),
        refs.len() == sups.len(),
        segments_equal(sups, refs),
    ensures
        spec_bind(refs, sups, supplied, i) matches Result::Ok(bound) ==> arg_names(bound)
            == variable_names_of(refs.skip(i)),
        spec_bind(refs, sups, supplied, i) is Err ==> exists|j: int|
            i <= j < refs.len() && (#[trigger] sups[j]) is Variable && args_lookup(
                supplied,
                sups[j]->Variable_0,
            ) is None,
    decreases refs.len() - i + 1,
{
    if i < refs.len() {
        lemma_bind_names(refs, sups, supplied, i + 1);
        assert(erased(sups)[i] == erase_seg(sups[i]));
        assert(erased(refs)[i] == erase_seg(refs[i]));
        assert(erase_seg(sups[i]) == erase_seg(refs[i]));
        let tail_refs = refs.skip(i);
        assert(tail_refs[0] == refs[i]);
        assert(tail_refs.drop_first() =~= refs.skip(i + 1));
        match spec_bind(refs, sups, supplied, i) {
            Result::Ok(bound) => {
                match refs[i] {
                    SegView::Variable(key) => {
                        let rest = spec_bind(refs, sups, supplied, i + 1);
                        assert(rest is Ok);
                        let tail = rest->Ok_0;
                        match sups[i] {
                            SegView::Value(v) => {
                                assert(bound == seq![(key, v)] + tail);
                                assert(arg_names(bound) =~= seq![key] + arg_names(tail));
                            },
                            SegView::Variable(var) => {
                                let v = args_lookup(supplied, var)->Some_0;
                                assert(bound == seq![(key, v)] + tail);
                                assert(arg_names(bound) =~= seq![key] + arg_names(tail));
                            },
                            SegView::Literal(_) => {
                                assert(false);
                            },
                        }
                        assert(arg_names(bound) =~= variable_names_of(refs.skip(i)));
                    },
                    _ => {
                        assert(arg_names(bound) =~= variable_names_of(refs.skip(i)));
                    },
                }
            },
            Result::Err(_) => {},
        }
    } else {
        if i <= refs.len() {
            assert(refs.skip(i).len() == 0);
            assert(arg_names(Seq::<(Seq<char>, JsonView)>::empty()) =~= variable_names_of(
                refs.skip(i),
            ));
        }
    }
}


/// One placeholder applied to a string: every `<delim><name><delim>` becomes
/// the placeholder's value, when the matcher occurs at all.
pub open spec fn expand_str_step(
    s: Seq<char>,
    delim: Seq<char>,
    name: Seq<char>,
    value: Seq<char>,
) -> Seq<char> {
    let matcher = delim + name + delim;
    if contains_seq(s, matcher) {
        replaced(s, matcher, value)
    } else {
        s
    }
}

/// All placeholders applied to a string, in their stored order, each seeing
/// the text the previous ones produced.
pub open spec fn expand_str(
    s: Seq<char>,
    delim: Seq<char>,
    phs: Seq<(Seq<char>, Seq<char>)>,
    k: int,
) -> Seq<char>
    decreases phs.len() - k + 1,
{
    if k < 0 || k >= phs.len() {
        s
    } else {
        expand_str(expand_str_step(s, delim, phs[k].0, phs[k].1), delim, phs, k + 1)
    }
}

/// Placeholder expansion of a JSON value: it reaches every string leaf that
/// holds the delimiter at all, recurses through arrays and objects, and
/// leaves null, booleans and numbers untouched.
pub open spec fn expand_value(v: JsonView, delim: Seq<char>, phs: Seq<(Seq<char>, Seq<char>)>) -> JsonView
    decreases v,
{
    match v {
        JsonView::Null => JsonView::Null,
        JsonView::Bool(b) => JsonView::Bool(b),
        JsonView::Number(n) => JsonView::Number(n),
        JsonView::Str(s) => {
            if contains_seq(s, delim) {
                JsonView::Str(expand_str(s, delim, phs, 0))
            } else {
                JsonView::Str(s)
            }
        },
        JsonView::Array(items) => JsonView::Array(expand_items(items, delim, phs)),
        JsonView::Object(entries) => JsonView::Object(expand_entries(entries, delim, phs)),
    }
}

/// Placeholder expansion of every array element.
pub open spec fn expand_items(
    items: Seq<JsonView>,
    delim: Seq<char>,
    phs: Seq<(Seq<char>, Seq<char>)>,
) -> Seq<JsonView>
    decreases items via expand_items_decreases
{
    if items.len() == 0 {
        Seq::empty()
    } else {
        seq![expand_value(items[0], delim, phs)] + expand_items(items.drop_first(), delim, phs)
    }
}

/// Placeholder expansion of every object value; keys stay as they are.
pub open spec fn expand_entries(
    entries: Seq<(Seq<char>, JsonView)>,
    delim: Seq<char>,
    phs: Seq<(Seq<char>, Seq<char>)>,
) -> Seq<(Seq<char>, JsonView)>
    decreases entries via expand_entries_decreases
{
    if entries.len() == 0 {
        Seq::empty()
    } else {
        seq![(entries[0].0, expand_value(entries[0].1, delim, phs))] + expand_entries(
            entries.drop_first(),
            delim,
            phs,
        )
    }
}

#[via_fn]
proof fn expand_items_decreases(
    items: Seq<JsonView>,
    delim: Seq<char>,
    phs: Seq<(Seq<char>, Seq<char>)>,
) {
    broadcast use vstd::seq::axiom_seq_index_decreases, vstd::seq::axiom_seq_subrange_decreases;

}

#[via_fn]
proof fn expand_entries_decreases(
    entries: Seq<(Seq<char>, JsonView)>,
    delim: Seq<char>,
    phs: Seq<(Seq<char>, Seq<char>)>,
) {
    broadcast use vstd::seq::axiom_seq_index_decreases, vstd::seq::axiom_seq_subrange_decreases;

}

/// `expand_items` is the element-wise expansion.
proof fn lemma_expand_items(items: Seq<JsonView>, delim: Seq<char>, phs: Seq<(Seq<char>, Seq<char>)>)
    ensures
        expand_items(items, delim, phs).len() == items.len(),
        forall|i: int|
            0 <= i < items.len() ==> expand_items(items, delim, phs)[i] == expand_value(
                #[trigger] items[i],
                delim,
                phs,
            ),
    decreases items.len(),
{
    if items.len() > 0 {
        lemma_expand_items(items.drop_first(), delim, phs);
        assert forall|i: int| 0 <= i < items.len() implies expand_items(items, delim, phs)[i]
            == expand_value(#[trigger] items[i], delim, phs) by {
            if i > 0 {
                assert(items.drop_first()[i - 1] == items[i]);
                assert(expand_items(items, delim, phs)[i] == expand_items(
                    items.drop_first(),
                    delim,
                    phs,
                )[i - 1]);
            }
        }
    }
}

/// `expand_entries` is the entry-wise expansion.
proof fn lemma_expand_entries(
    entries: Seq<(Seq<char>, JsonView)>,
    delim: Seq<char>,
    phs: Seq<(Seq<char>, Seq<char>)>,
)
    ensures
        expand_entries(entries, delim, phs).len() == entries.len(),
        forall|i: int|
            0 <= i < entries.len() ==> expand_entries(entries, delim, phs)[i] == ((
            #[trigger] entries[i]).0, expand_value(entries[i].1, delim, phs)),
    decreases entries.len(),
{
    if entries.len() > 0 {
        lemma_expand_entries(entries.drop_first(), delim, phs);
        assert forall|i: int| 0 <= i < entries.len() implies expand_entries(entries, delim, phs)[i]
            == ((#[trigger] entries[i]).0, expand_value(entries[i].1, delim, phs)) by {
            if i > 0 {
                assert(entries.drop_first()[i - 1] == entries[i]);
                assert(expand_entries(entries, delim, phs)[i] == expand_entries(
                    entries.drop_first(),
                    delim,
                    phs,
                )[i - 1]);
            }
        }
    }
}

/// Apply every placeholder to a JSON value: string leaves that hold the
/// delimiter get each `<delim><name><delim>` replaced by its value, arrays
/// and objects are entered, and null, booleans and numbers pass through.
#[verifier::loop_isolation(false)]
pub fn replace_inside_value(
    value: &JsonValue,
    delim: &str,
    placeholders: &Vec<(String, String)>,
) -> (r: JsonValue)
    ensures
        r@ == expand_value(value@, delim@, pairs_view(placeholders@)),
    decreases value,
{
    broadcast use
        vstd::std_specs::vec::axiom_vec_index_decreases,
        vstd::std_specs::vec::axiom_vec_decreases_to_view,
        vstd::seq::axiom_seq_index_decreases;

    let ghost phs = pairs_view(placeholders@);
    match value {
        JsonValue::Null => JsonValue::Null,
        JsonValue::Bool(b) => JsonValue::Bool(*b),
        JsonValue::Number(n) => JsonValue::Number(n.clone()),
        JsonValue::Str(s) => {
            let delim_chars = chars_of(delim);
            let mut cur = chars_of(s.as_str());
            if !contains_chars(&cur, &delim_chars) {
                return JsonValue::Str(s.clone());
            }
            let ghost orig = cur@;
            let mut k: usize = 0;
            proof {
                assert(expand_str(cur@, delim@, phs, 0) == expand_str(orig, delim@, phs, 0));
            }
            while k < placeholders.len()
                invariant
                    k <= placeholders@.len(),
                    expand_str(cur@, delim@, phs, k as int) == expand_str(orig, delim@, phs, 0),
                decreases placeholders@.len() - k,
            {
                let mut matcher = delim_chars.clone();
                crate::text::extend_str(&mut matcher, placeholders[k].0.as_str());
                crate::text::extend_chars(&mut matcher, &delim_chars);
                proof {
                    assert(matcher@ =~= delim@ + phs[k as int].0 + delim@);
                }
                if contains_chars(&cur, &matcher) {
                    let to = chars_of(placeholders[k].1.as_str());
                    let next = crate::text::replace_chars(&cur, &matcher, &to);
                    proof {
                        assert(next@ == expand_str_step(
                            cur@,
                            delim@,
                            phs[k as int].0,
                            phs[k as int].1,
                        ));
                    }
                    cur = next;
                } else {
                    proof {
                        assert(cur@ == expand_str_step(
                            cur@,
                            delim@,
                            phs[k as int].0,
                            phs[k as int].1,
                        ));
                    }
                }
                k += 1;
            }
            JsonValue::Str(string_from_chars(&cur))
        },
        JsonValue::Array(items) => {
            proof {
                crate::json::lemma_json_view_seq(items@);
                lemma_expand_items(crate::json::json_view_seq(items@), delim@, phs);
            }
            let ghost model = crate::json::json_view_seq(items@);
            let mut out: Vec<JsonValue> = Vec::new();
            let mut i: usize = 0;
            while i < items.len()
                invariant
                    i <= items@.len(),
                    out@.len() == i,
                    forall|j: int|
                        0 <= j < i ==> (#[trigger] out@[j])@ == expand_value(model[j], delim@, phs),
                decreases items@.len() - i,
            {
                proof {
                    assert(*items == value->Array_0);
                    assert(decreases_to!(*value => value->Array_0));
                    assert(decreases_to!(value->Array_0 => value->Array_0@));
                    assert(decreases_to!(value->Array_0@ => value->Array_0@[i as int]));
                }
                out.push(replace_inside_value(&items[i], delim, placeholders));
                i += 1;
            }
            let r = JsonValue::Array(out);
            proof {
                crate::json::lemma_json_view_seq(out@);
                assert forall|j: int| 0 <= j < model.len() implies crate::json::json_view_seq(
                    out@,
                )[j] == expand_items(model, delim@, phs)[j] by {
                    assert(out@[j]@ == expand_value(model[j], delim@, phs));
                }
                assert(crate::json::json_view_seq(out@) =~= expand_items(model, delim@, phs));
            }
            r
        },
        JsonValue::Object(entries) => {
            proof {
                crate::json::lemma_json_view_entries(entries@);
                lemma_expand_entries(crate::json::json_view_entries(entries@), delim@, phs);
            }
            let ghost model = crate::json::json_view_entries(entries@);
            let mut out: Vec<(String, JsonValue)> = Vec::new();
            let mut i: usize = 0;
            while i < entries.len()
                invariant
                    i <= entries@.len(),
                    out@.len() == i,
                    forall|j: int|
                        0 <= j < i ==> (#[trigger] out@[j]).0@ == model[j].0 && out@[j].1@
                            == expand_value(model[j].1, delim@, phs),
                decreases entries@.len() - i,
            {
                proof {
                    assert(*entries == value->Object_0);
                    assert(decreases_to!(*value => value->Object_0));
                    assert(decreases_to!(value->Object_0 => value->Object_0@));
                    assert(decreases_to!(value->Object_0@ => value->Object_0@[i as int]));
                    assert(decreases_to!(value->Object_0@[i as int] => value->Object_0@[i as int].1));
                }
                let key = entries[i].0.clone();
                out.push((key, replace_inside_value(&entries[i].1, delim, placeholders)));
                i += 1;
            }
            let r = JsonValue::Object(out);
            proof {
                crate::json::lemma_json_view_entries(out@);
                assert forall|j: int| 0 <= j < model.len() implies crate::json::json_view_entries(
                    out@,
                )[j] == expand_entries(model, delim@, phs)[j] by {
                    assert(out@[j].0@ == model[j].0 && out@[j].1@ == expand_value(
                        model[j].1,
                        delim@,
                        phs,
                    ));
                }
                assert(crate::json::json_view_entries(out@) =~= expand_entries(
                    model,
                    delim@,
                    phs,
                ));
            }
            r
        },
    }
}

/// Whether the delimiter occurs in no string leaf of the value.
pub open spec fn no_delimiter_in(v: JsonView, delim: Seq<char>) -> bool
    decreases v,
{
    match v {
        JsonView::Null => true,
        JsonView::Bool(_) => true,
        JsonView::Number(_) => true,
        JsonView::Str(s) => !contains_seq(s, delim),
        JsonView::Array(items) => no_delimiter_in_items(items, delim),
        JsonView::Object(entries) => no_delimiter_in_entries(entries, delim),
    }
}

/// Whether the delimiter occurs in no string leaf of any element.
pub open spec fn no_delimiter_in_items(items: Seq<JsonView>, delim: Seq<char>) -> bool
    decreases items via no_delimiter_in_items_decreases
{
    items.len() == 0 || (no_delimiter_in(items[0], delim) && no_delimiter_in_items(
        items.drop_first(),
        delim,
    ))
}

/// Whether the delimiter occurs in no string leaf of any entry's value.
pub open spec fn no_delimiter_in_entries(entries: Seq<(Seq<char>, JsonView)>, delim: Seq<char>) -> bool
    decreases entries via no_delimiter_in_entries_decreases
{
    entries.len() == 0 || (no_delimiter_in(entries[0].1, delim) && no_delimiter_in_entries(
        entries.drop_first(),
        delim,
    ))
}

#[via_fn]
proof fn no_delimiter_in_items_decreases(items: Seq<JsonView>, delim: Seq<char>) {
    broadcast use vstd::seq::axiom_seq_index_decreases, vstd::seq::axiom_seq_subrange_decreases;

}

#[via_fn]
proof fn no_delimiter_in_entries_decreases(entries: Seq<(Seq<char>, JsonView)>, delim: Seq<char>) {
    broadcast use vstd::seq::axiom_seq_index_decreases, vstd::seq::axiom_seq_subrange_decreases;

}

/// Placeholder expansion is idempotent once no delimiter pair remains: a
/// value none of whose string leaves holds the delimiter is left exactly as
/// it is, whatever the placeholders. (Null, booleans and numbers are untouched
/// unconditionally, and arrays and objects only ever change inside their
/// string leaves: both are how `expand_value` is defined.)
pub proof fn lemma_expand_no_delimiter(
    v: JsonView,
    delim: Seq<char>,
    phs: Seq<(Seq<char>, Seq<char>)>,
)
    requires
        no_delimiter_in(v, delim),
    ensures
        expand_value(v, delim, phs) == v,
    decreases v,
{
    broadcast use vstd::seq::axiom_seq_index_decreases, vstd::seq::axiom_seq_subrange_decreases;

    match v {
        JsonView::Array(items) => {
            lemma_expand_no_delimiter_items(items, delim, phs);
        },
        JsonView::Object(entries) => {
            lemma_expand_no_delimiter_entries(entries, delim, phs);
        },
        _ => {},
    }
}

proof fn lemma_expand_no_delimiter_items(
    items: Seq<JsonView>,
    delim: Seq<char>,
    phs: Seq<(Seq<char>, Seq<char>)>,
)
    requires
        no_delimiter_in_items(items, delim),
    ensures
        expand_items(items, delim, phs) == items,
    decreases items,
{
    broadcast use vstd::seq::axiom_seq_index_decreases, vstd::seq::axiom_seq_subrange_decreases;

    if items.len() > 0 {
        lemma_expand_no_delimiter(items[0], delim, phs);
        lemma_expand_no_delimiter_items(items.drop_first(), delim, phs);
        assert(expand_items(items, delim, phs) =~= items);
    } else {
        assert(expand_items(items, delim, phs) =~= items);
    }
}

proof fn lemma_expand_no_delimiter_entries(
    entries: Seq<(Seq<char>, JsonView)>,
    delim: Seq<char>,
    phs: Seq<(Seq<char>, Seq<char>)>,
)
    requires
        no_delimiter_in_entries(entries, delim),
    ensures
        expand_entries(entries, delim, phs) == entries,
    decreases entries,
{
    broadcast use vstd::seq::axiom_seq_index_decreases, vstd::seq::axiom_seq_subrange_decreases;

    if entries.len() > 0 {
        lemma_expand_no_delimiter(entries[0].1, delim, phs);
        lemma_expand_no_delimiter_entries(entries.drop_first(), delim, phs);
        assert(expand_entries(entries, delim, phs) =~= entries);
    } else {
        assert(expand_entries(entries, delim, phs) =~= entries);
    }
}


/// A lookup in `base` overridden by the pairs of `extra`, the last binding of
/// a name winning — the effect of inserting `extra` into a map, in order.
pub open spec fn overridden(
    base: Seq<(String, String)>,
    extra: Seq<(String, String)>,
    name: Seq<char>,
) -> Option<Seq<char>>
    decreases extra.len(),
{
    if extra.len() == 0 {
        env_lookup(base, name)
    } else if extra.last().0@ == name {
        Option::Some(extra.last().1@)
    } else {
        overridden(base, extra.drop_last(), name)
    }
}

/// The two placeholder names the runner itself provides.
pub open spec fn process_directory_name() -> Seq<char> {
    "toolproof_process_directory"@
}

/// See [`process_directory_name`].
pub open spec fn test_directory_name() -> Seq<char> {
    "toolproof_test_directory"@
}

/// The placeholder value `name` must expand to, given the configuration, the
/// sandbox, and the transient frame of the calling macro: the frame wins over
/// the two built-in directory placeholders, which win over the configured
/// placeholders; without a sandbox only the frame applies.
pub open spec fn spec_effective_placeholder(
    ctx: Option<crate::options::ToolproofContext>,
    tmp_dir: Option<String>,
    transient: Option<Vec<(String, String)>>,
    name: Seq<char>,
) -> Option<Seq<char>> {
    let frame = match transient {
        Option::Some(t) => overridden(Seq::empty(), t@, name),
        Option::None => Option::None,
    };
    if frame is Some {
        frame
    } else if ctx is Some && tmp_dir is Some && name == test_directory_name() {
        Option::Some(tmp_dir->0@)
    } else if ctx is Some && name == process_directory_name() {
        Option::Some(ctx->0.working_directory@)
    } else {
        match ctx {
            Option::Some(c) => env_lookup(c.params.placeholders@, name),
            Option::None => Option::None,
        }
    }
}

/// Copy a list of string pairs, preserving every name and value.
fn clone_pairs(src: &Vec<(String, String)>) -> (r: Vec<(String, String)>)
    ensures
        r@.len() == src@.len(),
        forall|i: int|
            0 <= i < src@.len() ==> (#[trigger] r@[i]).0@ == src@[i].0@ && r@[i].1@ == src@[i].1@,
{
    let mut out: Vec<(String, String)> = Vec::new();
    let mut i: usize = 0;
    while i < src.len()
        invariant
            i <= src@.len(),
            out@.len() == i,
            forall|j: int|
                0 <= j < i ==> (#[trigger] out@[j]).0@ == src@[j].0@ && out@[j].1@ == src@[j].1@,
        decreases src@.len() - i,
    {
        out.push((src[i].0.clone(), src[i].1.clone()));
        i += 1;
    }
    out
}

/// Lists whose pairs agree view for view find every name at the same index.
proof fn lemma_env_index_congruent(
    a: Seq<(String, String)>,
    b: Seq<(String, String)>,
    name: Seq<char>,
    k: int,
)
    requires
        a.len() == b.len(),
        forall|i: int| 0 <= i < a.len() ==> (#[trigger] a[i]).0@ == b[i].0@ && a[i].1@ == b[i].1@,
    ensures
        crate::civilization::env_index(a, name, k) == crate::civilization::env_index(b, name, k),
        crate::civilization::env_index(a, name, k) matches Option::Some(j) ==> 0 <= j < a.len(),
    decreases a.len() - k + 1,
{
    if 0 <= k < a.len() {
        lemma_env_index_congruent(a, b, name, k + 1);
    }
}

/// The arguments a matched step binds, together with the placeholder state
/// that expands them: the delimiter and the effective placeholder map.
#[derive(Debug)]
pub struct SegmentArgs {
    pub args: Vec<(String, JsonValue)>,
    pub placeholder_delim: String,
    pub placeholders: Vec<(String, String)>,
}

impl SegmentArgs {
    /// What this argument set binds, as a mathematical map.
    pub open spec fn args_view(&self) -> Seq<(Seq<char>, JsonView)> {
        json_view_entries(self.args@)
    }

    /// The placeholder pairs, as character sequences.
    pub open spec fn phs_view(&self) -> Seq<(Seq<char>, Seq<char>)> {
        pairs_view(self.placeholders@)
    }

    /// Bind a matched user step against its registered template. At every
    /// variable of the template the parallel user value is bound under the
    /// variable's name; a user variable there is resolved among the supplied
    /// arguments, and naming one they do not bind is the error, which lists
    /// the names they do. The placeholder state is assembled from the
    /// configuration, the sandbox directories, and the calling macro's frame.
    #[verifier::loop_isolation(false)]
    pub fn build(
        reference_instruction: &ToolproofSegments,
        supplied_instruction: &ToolproofSegments,
        supplied_args: &crate::StepArgs,
        ctx: Option<&crate::options::ToolproofContext>,
        civ_tmp_dir: Option<&String>,
        transient_placeholders: Option<&Vec<(String, String)>>,
    ) -> (r: Result<SegmentArgs, ToolproofInputError>)
        requires
            segments_equal(supplied_instruction@, reference_instruction@),
        ensures
            match spec_bind(
                reference_instruction@,
                supplied_instruction@,
                json_view_entries(supplied_args@),
                0,
            ) {
                Result::Ok(bound) => r matches Result::Ok(args) && {
                    &&& args.args_view() == bound
                    &&& args.placeholder_delim@ == (match ctx {
                        Option::Some(c) => c.params.placeholder_delimiter@,
                        Option::None => Seq::<char>::empty(),
                    })
                    &&& forall|name: Seq<char>|
                        #[trigger] env_lookup(args.placeholders@, name)
                            == spec_effective_placeholder(
                            match ctx {
                                Option::Some(c) => Option::Some(*c),
                                Option::None => Option::None,
                            },
                            match civ_tmp_dir {
                                Option::Some(t) => Option::Some(*t),
                                Option::None => Option::None,
                            },
                            match transient_placeholders {
                                Option::Some(t) => Option::Some(*t),
                                Option::None => Option::None,
                            },
                            name,
                        )
                },
                Result::Err(var) => r matches Result::Err(e) && (e
                    matches ToolproofInputError::NonexistentArgument { arg, has } && arg@ == var
                    && has@ == spec_has_args(
                    Seq::new(supplied_args@.len(), |i: int| supplied_args@[i].0@),
                )),
            },
    {
        let ghost refs = reference_instruction@;
        let ghost sups = supplied_instruction@;
        let ghost supplied = json_view_entries(supplied_args@);
        proof {
            crate::json::lemma_json_view_entries(supplied_args@);
        }
        proof {
            assert(erased(sups).len() == sups.len());
            assert(erased(refs).len() == refs.len());
        }
        let mut args: Vec<(String, JsonValue)> = Vec::new();
        let n = reference_instruction.segments.len();
        let mut i: usize = 0;
        while i < n
            invariant
                i <= n,
                n == refs.len(),
                spec_bind(refs, sups, supplied, 0) == seg_combine_bind(
                    json_view_entries(args@),
                    spec_bind(refs, sups, supplied, i as int),
                ),
            decreases n - i,
        {
            let ghost pre = json_view_entries(args@);
            proof {
                assert(erased(sups)[i as int] == erase_seg(sups[i as int]));
                assert(erased(refs)[i as int] == erase_seg(refs[i as int]));
                assert(erase_seg(sups[i as int]) == erase_seg(refs[i as int]));
            }
            match &reference_instruction.segments[i] {
                ToolproofSegment::Variable(inst_key) => {
                    match &supplied_instruction.segments[i] {
                        ToolproofSegment::Value(val) => {
                            let ghost key_view = inst_key@;
                            let ghost val_view = crate::json::json_view(*val);
                            proof {
                                lemma_bind_combine_push(
                                    pre,
                                    key_view,
                                    val_view,
                                    spec_bind(refs, sups, supplied, i + 1),
                                );
                            }
                            let ghost old_args = args@;
                            args.push((inst_key.clone(), val.clone()));
                            proof {
                                crate::json::lemma_json_view_entries(old_args);
                                crate::json::lemma_json_view_entries(args@);
                                assert forall|j: int| 0 <= j < args@.len() implies
                                    #[trigger] json_view_entries(args@)[j] == pre.push(
                                    (key_view, val_view),
                                )[j] by {
                                    if j < old_args.len() {
                                        assert(args@[j] == old_args[j]);
                                    } else {
                                        assert(args@[j].0@ == key_view && args@[j].1@
                                            == val_view);
                                    }
                                }
                                assert(json_view_entries(args@) =~= pre.push(
                                    (key_view, val_view),
                                ));
                            }
                        },
                        ToolproofSegment::Variable(var) => {
                            match args_find(supplied_args, var.as_str()) {
                                Option::Some(var_val) => {
                                    let ghost key_view = inst_key@;
                                    let ghost val_view = var_val@;
                                    proof {
                                        lemma_bind_combine_push(
                                            pre,
                                            key_view,
                                            val_view,
                                            spec_bind(refs, sups, supplied, i + 1),
                                        );
                                    }
                                    let ghost old_args = args@;
                                    args.push((inst_key.clone(), var_val));
                                    proof {
                                        crate::json::lemma_json_view_entries(old_args);
                                        crate::json::lemma_json_view_entries(args@);
                                        assert forall|j: int| 0 <= j < args@.len() implies
                                            #[trigger] json_view_entries(args@)[j] == pre.push(
                                            (key_view, val_view),
                                        )[j] by {
                                            if j < old_args.len() {
                                                assert(args@[j] == old_args[j]);
                                            } else {
                                                assert(args@[j].0@ == key_view && args@[j].1@
                                                    == val_view);
                                            }
                                        }
                                        assert(json_view_entries(args@) =~= pre.push(
                                            (key_view, val_view),
                                        ));
                                    }
                                },
                                Option::None => {
                                    return Result::Err(
                                        ToolproofInputError::NonexistentArgument {
                                            arg: var.clone(),
                                            has: has_args_string(supplied_args),
                                        },
                                    );
                                },
                            }
                        },
                        ToolproofSegment::Literal(_) => {
                            proof {
                                assert(false);
                            }
                        },
                    }
                },
                _ => {},
            }
            i += 1;
        }
        proof {
            assert(json_view_entries(args@) + Seq::<(Seq<char>, JsonView)>::empty()
                =~= json_view_entries(args@));
        }
        let placeholder_delim: String = match ctx {
            Option::Some(c) => c.params.placeholder_delimiter.clone(),
            Option::None => String::new(),
        };
        let mut placeholders: Vec<(String, String)> = match ctx {
            Option::Some(c) => clone_pairs(&c.params.placeholders),
            Option::None => Vec::new(),
        };
        proof {
            reveal_strlit("toolproof_process_directory");
            reveal_strlit("toolproof_test_directory");
            match ctx {
                Option::Some(c) => {
                    lemma_env_lookup_congruent_all(placeholders@, c.params.placeholders@);
                },
                Option::None => {
                    assert forall|name: Seq<char>| #[trigger] env_lookup(placeholders@, name)
                        is None by {}
                },
            }
        }
        let ghost base_state = placeholders@;
        match ctx {
            Option::Some(c) => {
                let name_chars: Vec<char> = chars_of("toolproof_process_directory");
                crate::civilization::set_pair(
                    &mut placeholders,
                    string_from_chars(&name_chars),
                    c.working_directory.clone(),
                );
                let ghost after_pd = placeholders@;
                match civ_tmp_dir {
                    Option::Some(tmp) => {
                        let tname: Vec<char> = chars_of("toolproof_test_directory");
                        crate::civilization::set_pair(
                            &mut placeholders,
                            string_from_chars(&tname),
                            tmp.clone(),
                        );
                        proof {
                            assert forall|name: Seq<char>|
                                #[trigger] env_lookup(placeholders@, name) == (if name
                                    == test_directory_name() {
                                    Option::Some(civ_tmp_dir->Some_0@)
                                } else if name == process_directory_name() {
                                    Option::Some(ctx->Some_0.working_directory@)
                                } else {
                                    env_lookup(base_state, name)
                                }) by {
                                if name != test_directory_name() {
                                    assert(env_lookup(placeholders@, name) == env_lookup(
                                        after_pd,
                                        name,
                                    ));
                                }
                            }
                        }
                    },
                    Option::None => {},
                }
            },
            Option::None => {},
        }
        let ghost before_transient = placeholders@;
        proof {
            assert forall|name: Seq<char>|
                #[trigger] env_lookup(before_transient, name) == spec_effective_placeholder(
                    match ctx {
                        Option::Some(c) => Option::Some(*c),
                        Option::None => Option::None,
                    },
                    match civ_tmp_dir {
                        Option::Some(t) => Option::Some(*t),
                        Option::None => Option::None,
                    },
                    Option::None,
                    name,
                ) by {}
        }
        match transient_placeholders {
            Option::Some(extra) => {
                let ghost extra_view = extra@;
                let mut k: usize = 0;
                while k < extra.len()
                    invariant
                        k <= extra@.len(),
                        extra@ == extra_view,
                        forall|name: Seq<char>|
                            #[trigger] env_lookup(placeholders@, name) == (match overridden(
                                Seq::empty(),
                                extra_view.take(k as int),
                                name,
                            ) {
                                Option::Some(v) => Option::Some(v),
                                Option::None => env_lookup(before_transient, name),
                            }),
                    decreases extra@.len() - k,
                {
                    let ghost p_before = placeholders@;
                    crate::civilization::set_pair(
                        &mut placeholders,
                        extra[k].0.clone(),
                        extra[k].1.clone(),
                    );
                    proof {
                        assert(extra_view.take(k + 1).last() == extra_view[k as int]);
                        assert(extra_view.take(k + 1).drop_last() =~= extra_view.take(k as int));
                        assert forall|name: Seq<char>|
                            #[trigger] env_lookup(placeholders@, name) == (match overridden(
                                Seq::empty(),
                                extra_view.take(k + 1),
                                name,
                            ) {
                                Option::Some(v) => Option::Some(v),
                                Option::None => env_lookup(before_transient, name),
                            }) by {
                            if name == extra_view[k as int].0@ {
                            } else {
                                assert(env_lookup(placeholders@, name) == env_lookup(
                                    p_before,
                                    name,
                                ));
                            }
                        }
                    }
                    k += 1;
                }
                proof {
                    assert(extra_view.take(extra_view.len() as int) =~= extra_view);
                }
            },
            Option::None => {},
        }
        proof {
            assert(spec_bind(refs, sups, supplied, refs.len() as int) == Result::<
                Seq<(Seq<char>, JsonView)>,
                Seq<char>,
            >::Ok(Seq::empty()));
        }
        Result::Ok(SegmentArgs { args, placeholder_delim, placeholders })
    }
}

/// Put already-bound arguments in front of a binding outcome.
pub open spec fn seg_combine_bind(
    pre: Seq<(Seq<char>, JsonView)>,
    r: Result<Seq<(Seq<char>, JsonView)>, Seq<char>>,
) -> Result<Seq<(Seq<char>, JsonView)>, Seq<char>> {
    match r {
        Result::Ok(t) => Result::Ok(pre + t),
        Result::Err(e) => Result::Err(e),
    }
}

proof fn lemma_bind_combine_push(
    pre: Seq<(Seq<char>, JsonView)>,
    key: Seq<char>,
    val: JsonView,
    r: Result<Seq<(Seq<char>, JsonView)>, Seq<char>>,
)
    ensures
        seg_combine_bind(pre, seg_combine_bind(seq![(key, val)], r)) == seg_combine_bind(
            pre.push((key, val)),
            r,
        ),
{
    match r {
        Result::Ok(t) => {
            assert(pre + (seq![(key, val)] + t) =~= pre.push((key, val)) + t);
        },
        Result::Err(_) => {},
    }
}

/// Lists whose pairs agree view for view resolve every name alike (driver
/// over all names).
proof fn lemma_env_lookup_congruent_all(a: Seq<(String, String)>, b: Seq<(String, String)>)
    requires
        a.len() == b.len(),
        forall|i: int| 0 <= i < a.len() ==> (#[trigger] a[i]).0@ == b[i].0@ && a[i].1@ == b[i].1@,
    ensures
        forall|name: Seq<char>| #[trigger] env_lookup(a, name) == env_lookup(b, name),
{
    assert forall|name: Seq<char>| #[trigger] env_lookup(a, name) == env_lookup(b, name) by {
        lemma_env_index_congruent(a, b, name, 0);
    }
}

/// Find a supplied argument by name (first binding), handing back a copy.
pub(crate) fn args_find(args: &crate::StepArgs, name: &str) -> (r: Option<JsonValue>)
    ensures
        match r {
            Option::Some(v) => args_lookup(json_view_entries(args@), name@) == Option::Some(v@),
            Option::None => args_lookup(json_view_entries(args@), name@) is None,
        },
{
    proof {
        crate::json::lemma_json_view_entries(args@);
    }
    let ghost model = json_view_entries(args@);
    let name_chars = chars_of(name);
    let mut i: usize = 0;
    while i < args.len()
        invariant
            i <= args@.len(),
            name_chars@ == name@,
            model == json_view_entries(args@),
            model.len() == args@.len(),
            forall|j: int|
                0 <= j < args@.len() ==> #[trigger] model[j] == (args@[j].0@, args@[j].1@),
            args_index(model, name@, 0) == args_index(model, name@, i as int),
        decreases args@.len() - i,
    {
        let key_chars = chars_of(args[i].0.as_str());
        if crate::text::chars_equal(&key_chars, &name_chars) {
            proof {
                assert(model[i as int].0 == name@);
                assert(args_index(model, name@, i as int) == Option::Some(i as int));
            }
            return Option::Some(args[i].1.clone());
        }
        proof {
            assert(model[i as int].0 != name@);
            assert(args_index(model, name@, i as int) == args_index(model, name@, i + 1));
        }
        i += 1;
    }
    Option::None
}


impl SegmentArgs {
    /// The raw JSON bound under `k`, with every placeholder expanded; a name
    /// this step did not bind is the error, which lists the names it did.
    pub fn get_value(&self, k: &str) -> (r: Result<JsonValue, ToolproofInputError>)
        ensures
            match args_lookup(self.args_view(), k@) {
                Option::Some(v) => r matches Result::Ok(out) && out@ == expand_value(
                    v,
                    self.placeholder_delim@,
                    self.phs_view(),
                ),
                Option::None => r matches Result::Err(e) && (e
                    matches ToolproofInputError::NonexistentArgument { arg, has } && arg@ == k@
                    && has@ == spec_has_args(
                    Seq::new(self.args@.len(), |i: int| self.args@[i].0@),
                )),
            },
    {
        match args_find(&self.args, k) {
            Option::Some(v) => Result::Ok(
                replace_inside_value(&v, self.placeholder_delim.as_str(), &self.placeholders),
            ),
            Option::None => Result::Err(
                ToolproofInputError::NonexistentArgument {
                    arg: crate::text::string_from_chars(&chars_of(k)),
                    has: has_args_string(&self.args),
                },
            ),
        }
    }

    /// The string bound under `k`, placeholders expanded; a value of any
    /// other JSON type is the typed error naming both what was found and what
    /// was expected.
    pub fn get_string(&self, k: &str) -> (r: Result<String, ToolproofInputError>)
        ensures
            match args_lookup(self.args_view(), k@) {
                Option::Some(v) => {
                    match expand_value(v, self.placeholder_delim@, self.phs_view()) {
                        JsonView::Str(s) => r matches Result::Ok(out) && out@ == s,
                        expanded => r matches Result::Err(e) && (e
                            matches ToolproofInputError::IncorrectArgumentType {
                            arg,
                            was,
                            expected,
                        } && arg@ == k@ && was@
                            == crate::definitions::assertions::spec_value_type(expanded)
                            && expected@ == "string"@),
                    }
                },
                Option::None => r matches Result::Err(e) && (e
                    matches ToolproofInputError::NonexistentArgument { arg, has } && arg@ == k@
                    && has@ == spec_has_args(
                    Seq::new(self.args@.len(), |i: int| self.args@[i].0@),
                )),
            },
    {
        let value = match self.get_value(k) {
            Result::Ok(v) => v,
            Result::Err(e) => {
                return Result::Err(e);
            },
        };
        match value {
            JsonValue::Str(s) => Result::Ok(s),
            other => {
                let was = crate::definitions::assertions::value_type(&other);
                Result::Err(
                    ToolproofInputError::IncorrectArgumentType {
                        arg: crate::text::string_from_chars(&chars_of(k)),
                        was: crate::text::string_from_chars(&chars_of(was)),
                        expected: crate::text::string_from_chars(&chars_of("string")),
                    },
                )
            },
        }
    }

    /// Expand placeholders in an arbitrary string, as if it were one of the
    /// bound arguments.
    pub fn process_external_string(&self, raw_value: &str) -> (r: String)
        ensures
            JsonView::Str(r@) == expand_value(
                JsonView::Str(raw_value@),
                self.placeholder_delim@,
                self.phs_view(),
            ),
    {
        let value = JsonValue::Str(crate::text::string_from_chars(&chars_of(raw_value)));
        match replace_inside_value(&value, self.placeholder_delim.as_str(), &self.placeholders) {
            JsonValue::Str(s) => s,
            _ => {
                proof {
                    assert(false);
                }
                crate::text::string_from_chars(&Vec::new())
            },
        }
    }
}


/// How one segment prints: a literal as itself, a value as its JSON rendering
/// in double quotes, a variable in braces.
pub open spec fn seg_as_string(s: SegView) -> Seq<char> {
    match s {
        SegView::Literal(l) => l,
        SegView::Value(v) => seq!['"'] + crate::json::json_of(v) + seq!['"'],
        SegView::Variable(n) => seq!['{'] + n + seq!['}'],
    }
}

/// How a whole pattern prints, segment by segment.
pub open spec fn segments_as_string(s: Seq<SegView>) -> Seq<char>
    decreases s.len(),
{
    if s.len() == 0 {
        Seq::empty()
    } else {
        seg_as_string(s[0]) + segments_as_string(s.drop_first())
    }
}

proof fn lemma_segments_as_string_push(s: Seq<SegView>, x: SegView)
    ensures
        segments_as_string(s.push(x)) == segments_as_string(s) + seg_as_string(x),
    decreases s.len(),
{
    if s.len() == 0 {
        assert(s.push(x)[0] == x);
        assert(s.push(x).drop_first() =~= Seq::<SegView>::empty());
        assert(segments_as_string(Seq::<SegView>::empty()) == Seq::<char>::empty());
        assert(segments_as_string(s.push(x)) =~= segments_as_string(s) + seg_as_string(x));
    } else {
        assert(s.push(x)[0] == s[0]);
        assert(s.push(x).drop_first() =~= s.drop_first().push(x));
        lemma_segments_as_string_push(s.drop_first(), x);
        assert(segments_as_string(s.push(x)) =~= segments_as_string(s) + seg_as_string(x));
    }
}

impl ToolproofSegments {
    /// The pattern printed back out: literals as themselves, values as quoted
    /// JSON, variables in braces.
    #[verifier::loop_isolation(false)]
    pub fn get_as_string(&self) -> (r: String)
        ensures
            r@ == segments_as_string(self@),
    {
        let mut out: Vec<char> = Vec::new();
        let mut i: usize = 0;
        proof {
            assert(self@.take(0) =~= Seq::<SegView>::empty());
        }
        while i < self.segments.len()
            invariant
                i <= self.segments@.len(),
                self@.len() == self.segments@.len(),
                out@ == segments_as_string(self@.take(i as int)),
            decreases self.segments@.len() - i,
        {
            proof {
                assert(self@.take(i + 1) =~= self@.take(i as int).push(self@[i as int]));
                lemma_segments_as_string_push(self@.take(i as int), self@[i as int]);
            }
            match &self.segments[i] {
                ToolproofSegment::Literal(l) => {
                    extend_str(&mut out, l.as_str());
                },
                ToolproofSegment::Value(v) => {
                    out.push('"');
                    crate::json::push_json(&mut out, v);
                    out.push('"');
                    proof {
                        assert(out@ =~= segments_as_string(self@.take(i + 1)));
                    }
                },
                ToolproofSegment::Variable(n) => {
                    out.push('{');
                    extend_str(&mut out, n.as_str());
                    out.push('}');
                    proof {
                        assert(out@ =~= segments_as_string(self@.take(i + 1)));
                    }
                },
            }
            i += 1;
        }
        proof {
            assert(self@.take(self@.len() as int) =~= self@);
        }
        string_from_chars(&out)
    }
}


/// Whether no placeholder matcher — `<delim><name><delim>` for any configured
/// name — occurs in the string.
pub open spec fn no_matcher_in_str(
    s: Seq<char>,
    delim: Seq<char>,
    phs: Seq<(Seq<char>, Seq<char>)>,
) -> bool {
    forall|k: int|
        0 <= k < phs.len() ==> !contains_seq(s, delim + (#[trigger] phs[k]).0 + delim)
}

/// Whether no placeholder matcher occurs in any string leaf of the value:
/// "no delimiter pair remains", as holds of any fully expanded value whose
/// placeholder values introduce no new matchers.
pub open spec fn no_matcher_in(v: JsonView, delim: Seq<char>, phs: Seq<(Seq<char>, Seq<char>)>) -> bool
    decreases v,
{
    match v {
        JsonView::Null => true,
        JsonView::Bool(_) => true,
        JsonView::Number(_) => true,
        JsonView::Str(s) => no_matcher_in_str(s, delim, phs),
        JsonView::Array(items) => no_matcher_in_items(items, delim, phs),
        JsonView::Object(entries) => no_matcher_in_entries(entries, delim, phs),
    }
}

/// Whether no placeholder matcher occurs in any element's string leaves.
pub open spec fn no_matcher_in_items(
    items: Seq<JsonView>,
    delim: Seq<char>,
    phs: Seq<(Seq<char>, Seq<char>)>,
) -> bool
    decreases items via no_matcher_in_items_decreases
{
    items.len() == 0 || (no_matcher_in(items[0], delim, phs) && no_matcher_in_items(
        items.drop_first(),
        delim,
        phs,
    ))
}

/// Whether no placeholder matcher occurs in any entry value's string leaves.
pub open spec fn no_matcher_in_entries(
    entries: Seq<(Seq<char>, JsonView)>,
    delim: Seq<char>,
    phs: Seq<(Seq<char>, Seq<char>)>,
) -> bool
    decreases entries via no_matcher_in_entries_decreases
{
    entries.len() == 0 || (no_matcher_in(entries[0].1, delim, phs) && no_matcher_in_entries(
        entries.drop_first(),
        delim,
        phs,
    ))
}

#[via_fn]
proof fn no_matcher_in_items_decreases(
    items: Seq<JsonView>,
    delim: Seq<char>,
    phs: Seq<(Seq<char>, Seq<char>)>,
) {
    broadcast use vstd::seq::axiom_seq_index_decreases, vstd::seq::axiom_seq_subrange_decreases;

}

#[via_fn]
proof fn no_matcher_in_entries_decreases(
    entries: Seq<(Seq<char>, JsonView)>,
    delim: Seq<char>,
    phs: Seq<(Seq<char>, Seq<char>)>,
) {
    broadcast use vstd::seq::axiom_seq_index_decreases, vstd::seq::axiom_seq_subrange_decreases;

}

/// A string no matcher occurs in passes through every expansion step
/// unchanged.
proof fn lemma_expand_str_no_matcher(
    s: Seq<char>,
    delim: Seq<char>,
    phs: Seq<(Seq<char>, Seq<char>)>,
    k: int,
)
    requires
        no_matcher_in_str(s, delim, phs),
        k >= 0,
    ensures
        expand_str(s, delim, phs, k) == s,
    decreases phs.len() - k + 1,
{
    if k < phs.len() {
        assert(expand_str_step(s, delim, phs[k].0, phs[k].1) == s);
        lemma_expand_str_no_matcher(s, delim, phs, k + 1);
    }
}

/// Placeholder expansion is idempotent once no delimiter pair remains: a
/// value in none of whose string leaves any `<delim><name><delim>` matcher
/// occurs is left exactly as it is. (Null, booleans and numbers are untouched
/// unconditionally, and arrays and objects only ever change inside their
/// string leaves: both are how `expand_value` is defined.)
pub proof fn lemma_expand_idempotent(
    v: JsonView,
    delim: Seq<char>,
    phs: Seq<(Seq<char>, Seq<char>)>,
)
    requires
        no_matcher_in(v, delim, phs),
    ensures
        expand_value(v, delim, phs) == v,
    decreases v,
{
    broadcast use vstd::seq::axiom_seq_index_decreases, vstd::seq::axiom_seq_subrange_decreases;

    match v {
        JsonView::Str(s) => {
            if contains_seq(s, delim) {
                lemma_expand_str_no_matcher(s, delim, phs, 0);
            }
        },
        JsonView::Array(items) => {
            lemma_expand_idempotent_items(items, delim, phs);
        },
        JsonView::Object(entries) => {
            lemma_expand_idempotent_entries(entries, delim, phs);
        },
        _ => {},
    }
}

proof fn lemma_expand_idempotent_items(
    items: Seq<JsonView>,
    delim: Seq<char>,
    phs: Seq<(Seq<char>, Seq<char>)>,
)
    requires
        no_matcher_in_items(items, delim, phs),
    ensures
        expand_items(items, delim, phs) == items,
    decreases items,
{
    broadcast use vstd::seq::axiom_seq_index_decreases, vstd::seq::axiom_seq_subrange_decreases;

    if items.len() > 0 {
        lemma_expand_idempotent(items[0], delim, phs);
        lemma_expand_idempotent_items(items.drop_first(), delim, phs);
        assert(expand_items(items, delim, phs) =~= items);
    } else {
        assert(expand_items(items, delim, phs) =~= items);
    }
}

proof fn lemma_expand_idempotent_entries(
    entries: Seq<(Seq<char>, JsonView)>,
    delim: Seq<char>,
    phs: Seq<(Seq<char>, Seq<char>)>,
)
    requires
        no_matcher_in_entries(entries, delim, phs),
    ensures
        expand_entries(entries, delim, phs) == entries,
    decreases entries,
{
    broadcast use vstd::seq::axiom_seq_index_decreases, vstd::seq::axiom_seq_subrange_decreases;

    if entries.len() > 0 {
        lemma_expand_idempotent(entries[0].1, delim, phs);
        lemma_expand_idempotent_entries(entries.drop_first(), delim, phs);
        assert(expand_entries(entries, delim, phs) =~= entries);
    } else {
        assert(expand_entries(entries, delim, phs) =~= entries);
    }
}

} // verus!
