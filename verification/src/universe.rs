//! The registry of step patterns, and the universe: the read-only context a
//! whole run shares.
//!
//! A registry is keyed by segment patterns under the wildcard-aware matching
//! of [`crate::segments`]: looking up a user step finds the first registered
//! template it matches. Registered keys are templates (no value segments)
//! with pairwise distinct erasures, so the first match is the only match.

use vstd::prelude::*;

use crate::segments::{
    erased, segments_equal, segments_match, value_free, SegView, ToolproofSegment,
    ToolproofSegments,
};

verus! {

/// The keys of a registry's entries, in order.
pub open spec fn reg_keys<T>(entries: Seq<(ToolproofSegments, T)>) -> Seq<Seq<SegView>> {
    Seq::new(entries.len(), |i: int| entries[i].0@)
}

/// The first index at or after `k` whose key equals the query (same erasure).
pub open spec fn spec_lookup_from(keys: Seq<Seq<SegView>>, q: Seq<SegView>, k: int) -> Option<int>
    decreases keys.len() - k + 1,
{
    if k < 0 || k >= keys.len() {
        Option::None
    } else if segments_equal(q, keys[k]) {
        Option::Some(k)
    } else {
        spec_lookup_from(keys, q, k + 1)
    }
}

/// The first index whose key equals the query.
pub open spec fn spec_lookup(keys: Seq<Seq<SegView>>, q: Seq<SegView>) -> Option<int> {
    spec_lookup_from(keys, q, 0)
}

/// A found index is an equal key, the earliest one; nothing is found exactly
/// when no key equals the query.
pub proof fn lemma_lookup_from(keys: Seq<Seq<SegView>>, q: Seq<SegView>, k: int)
    requires
        k >= 0,
    ensures
        match spec_lookup_from(keys, q, k) {
            Option::Some(j) => k <= j < keys.len() && segments_equal(q, keys[j]) && forall|m: int|
                k <= m < j ==> !segments_equal(q, keys[m]),
            Option::None => forall|m: int| k <= m < keys.len() ==> !segments_equal(q, keys[m]),
        },
    decreases keys.len() - k + 1,
{
    if k < keys.len() && !segments_equal(q, keys[k]) {
        lemma_lookup_from(keys, q, k + 1);
    }
}

/// A map keyed by segment patterns under wildcard matching.
#[derive(Debug)]
pub struct Registry<T> {
    pub entries: Vec<(ToolproofSegments, T)>,
}

impl<T> Registry<T> {
    /// Every key is a template — literals and variables only — and no two
    /// keys erase to the same token sequence.
    pub open spec fn well_formed(&self) -> bool {
        &&& forall|i: int|
            0 <= i < self.entries@.len() ==> value_free(#[trigger] reg_keys(self.entries@)[i])
        &&& forall|i: int, j: int|
            0 <= i < self.entries@.len() && 0 <= j < self.entries@.len() && i != j ==> erased(
                #[trigger] reg_keys(self.entries@)[i],
            ) != erased(#[trigger] reg_keys(self.entries@)[j])
    }

    /// An empty registry.
    pub fn new() -> (r: Self)
        ensures
            r.entries@.len() == 0,
            r.well_formed(),
    {
        Registry { entries: Vec::new() }
    }

    /// Whether a pattern holds no value segment (executable).
    fn key_is_template(key: &ToolproofSegments) -> (r: bool)
        ensures
            r == value_free(key@),
    {
        let mut i: usize = 0;
        while i < key.segments.len()
            invariant
                i <= key.segments@.len(),
                key@.len() == key.segments@.len(),
                forall|j: int| 0 <= j < i ==> !((#[trigger] key@[j]) is Value),
            decreases key.segments@.len() - i,
        {
            match &key.segments[i] {
                ToolproofSegment::Value(_) => {
                    proof {
                        assert(key@[i as int] is Value);
                    }
                    return false;
                },
                _ => {},
            }
            i += 1;
        }
        true
    }

    /// Register a pattern. The key must be a template whose erasure is new;
    /// a key that is no template, or that matches an already registered key,
    /// is refused and the registry stands unchanged.
    #[verifier::loop_isolation(false)]
    pub fn insert(&mut self, key: ToolproofSegments, value: T) -> (r: bool)
        requires
            old(self).well_formed(),
        ensures
            final(self).well_formed(),
            r ==> final(self).entries@ == old(self).entries@.push((key, value)) && value_free(
                key@,
            ),
            !r ==> *final(self) == *old(self),
            r == (value_free(key@) && spec_lookup(reg_keys(old(self).entries@), key@) is None),
    {
        if !Self::key_is_template(&key) {
            return false;
        }
        if self.get_index(&key).is_some() {
            return false;
        }
        proof {
            lemma_lookup_from(reg_keys(self.entries@), key@, 0);
        }
        let ghost old_entries = self.entries@;
        self.entries.push((key, value));
        proof {
            let keys_new = reg_keys(self.entries@);
            let keys_old = reg_keys(old_entries);
            assert forall|i: int| 0 <= i < keys_new.len() implies value_free(
                #[trigger] keys_new[i],
            ) by {
                if i < keys_old.len() {
                    assert(keys_new[i] == keys_old[i]);
                }
            }
            assert forall|i: int, j: int|
                0 <= i < keys_new.len() && 0 <= j < keys_new.len() && i != j implies erased(
                #[trigger] keys_new[i],
            ) != erased(#[trigger] keys_new[j]) by {
                if i < keys_old.len() && j < keys_old.len() {
                    assert(keys_new[i] == keys_old[i] && keys_new[j] == keys_old[j]);
                } else {
                    let o = if i < keys_old.len() {
                        i
                    } else {
                        j
                    };
                    assert(keys_new[o] == keys_old[o]);
                    assert(!segments_equal(key@, keys_old[o]));
                }
            }
        }
        true
    }

    /// The index of the first registered key the query matches (executable).
    fn get_index(&self, q: &ToolproofSegments) -> (r: Option<usize>)
        ensures
            match r {
                Option::Some(j) => spec_lookup(reg_keys(self.entries@), q@) == Option::Some(
                    j as int,
                ),
                Option::None => spec_lookup(reg_keys(self.entries@), q@) == Option::<int>::None,
            },
    {
        let ghost keys = reg_keys(self.entries@);
        let mut i: usize = 0;
        while i < self.entries.len()
            invariant
                i <= self.entries@.len(),
                keys == reg_keys(self.entries@),
                keys.len() == self.entries@.len(),
                spec_lookup(keys, q@) == spec_lookup_from(keys, q@, i as int),
            decreases self.entries@.len() - i,
        {
            if q.eq(&self.entries[i].0) {
                proof {
                    assert(keys[i as int] == self.entries@[i as int].0@);
                }
                return Option::Some(i);
            }
            proof {
                assert(keys[i as int] == self.entries@[i as int].0@);
            }
            i += 1;
        }
        Option::None
    }

    /// Look up the value registered under the first template the user step
    /// matches.
    pub fn get<'a>(&'a self, q: &ToolproofSegments) -> (r: Option<&'a T>)
        ensures
            match r {
                Option::Some(v) => {
                    &&& spec_lookup(reg_keys(self.entries@), q@) matches Option::Some(j)
                    &&& 0 <= j < self.entries@.len()
                    &&& *v == self.entries@[j].1
                },
                Option::None => spec_lookup(reg_keys(self.entries@), q@) is None,
            },
    {
        match self.get_index(q) {
            Option::Some(i) => {
                proof {
                    lemma_lookup_from(reg_keys(self.entries@), q@, 0);
                }
                Option::Some(&self.entries[i].1)
            },
            Option::None => Option::None,
        }
    }

    /// Look up both the registered template and its value.
    pub fn get_key_value<'a>(&'a self, q: &ToolproofSegments) -> (r: Option<
        (&'a ToolproofSegments, &'a T),
    >)
        ensures
            match r {
                Option::Some(kv) => {
                    &&& spec_lookup(reg_keys(self.entries@), q@) matches Option::Some(j)
                    &&& 0 <= j < self.entries@.len()
                    &&& *kv.0 == self.entries@[j].0
                    &&& *kv.1 == self.entries@[j].1
                },
                Option::None => spec_lookup(reg_keys(self.entries@), q@) is None,
            },
    {
        match self.get_index(q) {
            Option::Some(i) => {
                proof {
                    lemma_lookup_from(reg_keys(self.entries@), q@, 0);
                }
                let entry = &self.entries[i];
                Option::Some((&entry.0, &entry.1))
            },
            Option::None => Option::None,
        }
    }

    /// How many patterns are registered.
    pub fn len(&self) -> (r: usize)
        ensures
            r == self.entries@.len(),
    {
        self.entries.len()
    }
}

/// Registry lookup agrees with wildcard matching: in a well-formed registry
/// (template keys), a user step finds a key exactly when it matches some key
/// under the one-sided matching relation — equivalently, when some key erases
/// to the same token sequence — and the found key is that one.
pub proof fn lemma_lookup_iff_erased<T>(reg: &Registry<T>, q: Seq<SegView>)
    requires
        reg.well_formed(),
    ensures
        (spec_lookup(reg_keys(reg.entries@), q) is Some) <==> exists|i: int|
            0 <= i < reg.entries@.len() && segments_match(
                q,
                #[trigger] reg_keys(reg.entries@)[i],
            ),
        (spec_lookup(reg_keys(reg.entries@), q) is Some) <==> exists|i: int|
            0 <= i < reg.entries@.len() && erased(#[trigger] reg_keys(reg.entries@)[i]) == erased(
                q,
            ),
        spec_lookup(reg_keys(reg.entries@), q) matches Option::Some(j) ==> 0 <= j
            < reg.entries@.len() && segments_match(q, reg_keys(reg.entries@)[j]) && erased(
            reg_keys(reg.entries@)[j],
        ) == erased(q),
{
    let keys = reg_keys(reg.entries@);
    lemma_lookup_from(keys, q, 0);
    match spec_lookup(keys, q) {
        Option::Some(j) => {
            crate::segments::lemma_match_iff_erased(q, keys[j]);
        },
        Option::None => {
            assert forall|i: int|
                0 <= i < reg.entries@.len() implies erased(#[trigger] keys[i]) != erased(q) by {
                crate::segments::lemma_match_iff_erased(q, keys[i]);
            }
            assert forall|i: int|
                0 <= i < reg.entries@.len() implies !segments_match(
                q,
                #[trigger] reg_keys(reg.entries@)[i],
            ) by {
                crate::segments::lemma_match_iff_erased(q, keys[i]);
            }
        },
    }
}


/// The index of the first test stored under exactly this path.
pub open spec fn spec_test_index(
    tests: Seq<(String, crate::ToolproofTestFile)>,
    path: Seq<char>,
    k: int,
) -> Option<int>
    decreases tests.len() - k + 1,
{
    if k < 0 || k >= tests.len() {
        Option::None
    } else if tests[k].0@ == path {
        Option::Some(k)
    } else {
        spec_test_index(tests, path, k + 1)
    }
}

/// The read-only context a whole run shares: the parsed tests ordered by
/// path, the macros, the three step registries with their comparison strings
/// for fuzzy diagnostics, and the configuration.
pub struct Universe {
    pub tests: Vec<(String, crate::ToolproofTestFile)>,
    pub macros: Registry<crate::ToolproofMacroFile>,
    pub macro_comparisons: Vec<String>,
    pub instructions: Registry<crate::definitions::InstructionTag>,
    pub instruction_comparisons: Vec<String>,
    pub retrievers: Registry<crate::definitions::RetrieverTag>,
    pub retriever_comparisons: Vec<String>,
    pub assertions: Registry<crate::definitions::AssertionTag>,
    pub assertion_comparisons: Vec<String>,
    pub ctx: crate::options::ToolproofContext,
}

impl Universe {
    /// The test file stored under exactly this path.
    pub fn get_test(&self, path: &str) -> (r: Option<&crate::ToolproofTestFile>)
        ensures
            match r {
                Option::Some(f) => spec_test_index(self.tests@, path@, 0) matches Option::Some(j)
                    && 0 <= j < self.tests@.len() && *f == self.tests@[j].1,
                Option::None => spec_test_index(self.tests@, path@, 0) is None,
            },
    {
        let path_chars = crate::text::chars_of(path);
        let mut i: usize = 0;
        while i < self.tests.len()
            invariant
                i <= self.tests@.len(),
                path_chars@ == path@,
                spec_test_index(self.tests@, path@, 0) == spec_test_index(
                    self.tests@,
                    path@,
                    i as int,
                ),
            decreases self.tests@.len() - i,
        {
            let key_chars = crate::text::chars_of(self.tests[i].0.as_str());
            if crate::text::chars_equal(&key_chars, &path_chars) {
                proof {
                    assert(self.tests@[i as int].0@ == path@);
                    assert(spec_test_index(self.tests@, path@, i as int) == Option::Some(i as int));
                }
                return Option::Some(&self.tests[i].1);
            }
            proof {
                assert(self.tests@[i as int].0@ != path@);
                assert(spec_test_index(self.tests@, path@, i as int) == spec_test_index(
                    self.tests@,
                    path@,
                    i + 1,
                ));
            }
            i += 1;
        }
        Option::None
    }
}

} // verus!
