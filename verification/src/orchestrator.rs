//! The orchestrator's decisions: duplicate test names, the run mode, the
//! version gate, fuzzy-match filtering for diagnostics, the retry policy, and
//! the final summary. The concurrency itself — tasks, the semaphore, the
//! prompts — runs at the program's edge.

use vstd::prelude::*;

use crate::errors::ToolproofInputError;
use crate::text::chars_of;
use crate::ToolproofTestSuccess;

verus! {

/// The first pair of indexes at or after `(k, k+1..)` naming the same test.
pub open spec fn spec_first_duplicate(names: Seq<Seq<char>>, k: int) -> Option<(int, int)>
    decreases names.len() - k + 1,
{
    if k < 0 || k >= names.len() {
        Option::None
    } else {
        match spec_dup_partner(names, k, k + 1) {
            Option::Some(j) => Option::Some((k, j)),
            Option::None => spec_first_duplicate(names, k + 1),
        }
    }
}

/// The first index after `j0` whose name equals `names[k]`.
pub open spec fn spec_dup_partner(names: Seq<Seq<char>>, k: int, j0: int) -> Option<int>
    decreases names.len() - j0 + 1,
{
    if j0 < 0 || j0 >= names.len() {
        Option::None
    } else if names[j0] == names[k] {
        Option::Some(j0)
    } else {
        spec_dup_partner(names, k, j0 + 1)
    }
}

/// Find two test files that share one name: the startup error lists both
/// paths and the shared name. `None` means every name is unique.
#[verifier::loop_isolation(false)]
pub fn find_duplicate_name(files: &Vec<(String, String)>) -> (r: Option<
    ToolproofInputError,
>)
    ensures
        ({
            let names = Seq::new(files@.len(), |i: int| files@[i].0@);
            match r {
                Option::Some(e) => spec_first_duplicate(names, 0) matches Option::Some(pair) && (e
                    matches ToolproofInputError::DuplicateName { path_one, path_two, name } && {
                    &&& path_one@ == files@[pair.0].1@
                    &&& path_two@ == files@[pair.1].1@
                    &&& name@ == names[pair.0]
                }),
                Option::None => spec_first_duplicate(names, 0) is None,
            }
        }),
{
    let ghost names = Seq::new(files@.len(), |i: int| files@[i].0@);
    let n = files.len();
    let mut k: usize = 0;
    while k < n
        invariant
            k <= n,
            n == files@.len(),
            spec_first_duplicate(names, 0) == spec_first_duplicate(names, k as int),
        decreases n - k,
    {
        let name_chars = chars_of(files[k].0.as_str());
        let mut j: usize = k + 1;
        while j < n
            invariant
                k < j <= n || (j == k + 1 && k < n),
                j >= k + 1,
                name_chars@ == names[k as int],
                spec_dup_partner(names, k as int, (k + 1) as int) == spec_dup_partner(
                    names,
                    k as int,
                    j as int,
                ),
            decreases n - j,
        {
            let other_chars = chars_of(files[j].0.as_str());
            if crate::text::chars_equal(&other_chars, &name_chars) {
                proof {
                    assert(names[j as int] == names[k as int]);
                    assert(spec_dup_partner(names, k as int, j as int) == Option::Some(j as int));
                    assert(spec_first_duplicate(names, k as int) == Option::Some(
                        (k as int, j as int),
                    ));
                }
                return Option::Some(
                    ToolproofInputError::DuplicateName {
                        path_one: files[k].1.clone(),
                        path_two: files[j].1.clone(),
                        name: files[k].0.clone(),
                    },
                );
            }
            proof {
                assert(names[j as int] != names[k as int]);
                assert(spec_dup_partner(names, k as int, j as int) == spec_dup_partner(
                    names,
                    k as int,
                    j + 1,
                ));
            }
            j += 1;
        }
        proof {
            assert(spec_dup_partner(names, k as int, n as int) is None);
            assert(spec_first_duplicate(names, k as int) == spec_first_duplicate(names, k + 1));
        }
        k += 1;
    }
    Option::None
}

/// Which entries of a descending similarity ranking are surfaced as "closest"
/// matches: the best always; a score below 0.4 only at the very top; a score
/// below 0.6 only among the first six. Scores arrive as thousandths, so the
/// thresholds are 400 and 600.
pub open spec fn spec_keep_match(index: int, score_millis: int) -> bool {
    if index > 5 && score_millis < 600 {
        false
    } else if index > 0 && score_millis < 400 {
        false
    } else {
        true
    }
}

/// The surfaced matches of a descending similarity ranking, in order.
pub open spec fn spec_close_matches(ranked: Seq<(String, u32)>, i: int) -> Seq<Seq<char>>
    decreases ranked.len() - i + 1,
{
    if i < 0 || i >= ranked.len() {
        Seq::empty()
    } else {
        let rest = spec_close_matches(ranked, i + 1);
        if spec_keep_match(i, ranked[i].1 as int) {
            seq![ranked[i].0@] + rest
        } else {
            rest
        }
    }
}

/// Filter a ranking of candidate patterns (already sorted by descending
/// similarity, scores in thousandths) down to the surfaced matches, in order.
#[verifier::loop_isolation(false)]
pub fn filter_close_matches(ranked: &Vec<(String, u32)>) -> (r: Vec<String>)
    ensures
        r.deep_view() == spec_close_matches(ranked@, 0),
{
    let mut out: Vec<String> = Vec::new();
    let mut i: usize = 0;
    proof {
        assert(out.deep_view() + spec_close_matches(ranked@, 0) =~= spec_close_matches(
            ranked@,
            0,
        ));
    }
    while i < ranked.len()
        invariant
            i <= ranked@.len(),
            out.deep_view() + spec_close_matches(ranked@, i as int) == spec_close_matches(
                ranked@,
                0,
            ),
        decreases ranked@.len() - i,
    {
        let keep = if i > 5 && ranked[i].1 < 600 {
            false
        } else if i > 0 && ranked[i].1 < 400 {
            false
        } else {
            true
        };
        let ghost old_out = out.deep_view();
        if keep {
            proof {
                assert(spec_keep_match(i as int, ranked@[i as int].1 as int));
            }
            out.push(ranked[i].0.clone());
            proof {
                assert(out.deep_view() =~= old_out.push(ranked@[i as int].0@));
                assert(out.deep_view() + spec_close_matches(ranked@, i + 1) =~= old_out + (seq![
                    ranked@[i as int].0@,
                ] + spec_close_matches(ranked@, i + 1)));
            }
        } else {
            proof {
                assert(!spec_keep_match(i as int, ranked@[i as int].1 as int));
            }
        }
        i += 1;
    }
    proof {
        assert(spec_close_matches(ranked@, ranked@.len() as int) =~= Seq::<Seq<char>>::empty());
        assert(out.deep_view() + Seq::<Seq<char>>::empty() =~= out.deep_view());
    }
    out
}

/// The concurrency of the next retry pass: halved, but never below one.
pub fn retry_concurrency(current: usize) -> (r: usize)
    ensures
        r == (if current / 2 >= 1 {
            current / 2
        } else {
            1usize
        }),
        r >= 1,
{
    let halved = current / 2;
    if halved < 1 {
        1
    } else {
        halved
    }
}

/// A test that passed on a retry pass carries the number of the attempt that
/// succeeded; a skip stays a skip.
pub fn mark_retried(result: ToolproofTestSuccess, attempt: usize) -> (r: ToolproofTestSuccess)
    ensures
        result is Passed ==> r == (ToolproofTestSuccess::Passed { attempts: attempt }),
        result is Skipped ==> r == result,
{
    match result {
        ToolproofTestSuccess::Passed { .. } => ToolproofTestSuccess::Passed { attempts: attempt },
        ToolproofTestSuccess::Skipped => ToolproofTestSuccess::Skipped,
    }
}

/// How a finished run is summed up; the exit status is success exactly when
/// nothing failed.
#[derive(Debug, Clone, Copy, PartialEq, Eq, Structural)]
pub struct RunSummary {
    pub passing: usize,
    pub retried_passed: usize,
    pub failing: usize,
    pub skipped: usize,
}

/// How many results passed, passed only after a retry, failed, and were
/// skipped.
pub open spec fn spec_summary(results: Seq<Option<ToolproofTestSuccess>>, k: int) -> (int, int, int, int)
    decreases results.len() - k + 1,
{
    if k < 0 || k >= results.len() {
        (0int, 0int, 0int, 0int)
    } else {
        let rest = spec_summary(results, k + 1);
        match results[k] {
            Option::Some(ToolproofTestSuccess::Passed { attempts }) => (
                rest.0 + 1,
                rest.1 + (if attempts > 0 {
                    1int
                } else {
                    0int
                }),
                rest.2,
                rest.3,
            ),
            Option::Some(ToolproofTestSuccess::Skipped) => (rest.0, rest.1, rest.2, rest.3 + 1),
            Option::None => (rest.0, rest.1, rest.2 + 1, rest.3),
        }
    }
}

/// Sum up a run: each result is a success, a skip, or (`None`) a failure.
#[verifier::loop_isolation(false)]
pub fn summarize(results: &Vec<Option<ToolproofTestSuccess>>) -> (r: RunSummary)
    ensures
        ({
            let totals = spec_summary(results@, 0);
            &&& r.passing == totals.0
            &&& r.retried_passed == totals.1
            &&& r.failing == totals.2
            &&& r.skipped == totals.3
        }),
{
    proof {
        lemma_summary_bounds(results@, 0);
    }
    let n = results.len();
    let mut passing: usize = 0;
    let mut retried: usize = 0;
    let mut failing: usize = 0;
    let mut skipped: usize = 0;
    let mut i: usize = n;
    while i > 0
        invariant
            i <= n,
            n == results@.len(),
            passing == spec_summary(results@, i as int).0,
            retried == spec_summary(results@, i as int).1,
            failing == spec_summary(results@, i as int).2,
            skipped == spec_summary(results@, i as int).3,
        decreases i,
    {
        i -= 1;
        proof {
            lemma_summary_bounds(results@, i + 1);
        }
        match &results[i] {
            Option::Some(ToolproofTestSuccess::Passed { attempts }) => {
                passing += 1;
                if *attempts > 0 {
                    retried += 1;
                }
            },
            Option::Some(ToolproofTestSuccess::Skipped) => {
                skipped += 1;
            },
            Option::None => {
                failing += 1;
            },
        }
    }
    RunSummary { passing, retried_passed: retried, failing, skipped }
}

/// Each count is bounded by how many results are left to sum.
proof fn lemma_summary_bounds(results: Seq<Option<ToolproofTestSuccess>>, k: int)
    ensures
        0 <= spec_summary(results, k).0,
        0 <= spec_summary(results, k).1,
        0 <= spec_summary(results, k).2,
        0 <= spec_summary(results, k).3,
        0 <= k <= results.len() ==> {
            &&& spec_summary(results, k).0 <= results.len() - k
            &&& spec_summary(results, k).1 <= results.len() - k
            &&& spec_summary(results, k).2 <= results.len() - k
            &&& spec_summary(results, k).3 <= results.len() - k
        },
    decreases results.len() - k + 1,
{
    if 0 <= k < results.len() {
        lemma_summary_bounds(results, k + 1);
    }
}

/// A run exits successfully exactly when nothing failed.
pub fn exit_success(summary: &RunSummary) -> (r: bool)
    ensures
        r == (summary.failing == 0),
{
    summary.failing == 0
}

/// What the run was asked to cover: everything, one named test, or the tests
/// under one path.
#[derive(Debug)]
pub enum RunMode {
    All,
    One(String),
    Path(String),
}

/// Whether a string parses as a version requirement: a function of the
/// string alone.
pub uninterp spec fn semver_req_parses(req: Seq<char>) -> bool;

/// Whether a string parses as a version: a function of the string alone.
pub uninterp spec fn semver_version_parses(version: Seq<char>) -> bool;

/// What `supported_versions` returns for the running binary, a function of
/// the requirement and the version alone.
pub uninterp spec fn semver_match_of(req: Seq<char>, version: Seq<char>) -> bool;

/// Relies on `semver::VersionReq::parse`, `semver::Version::parse` and
/// `semver::VersionReq::matches`: the parses succeed as a function of each
/// string alone, whether the version satisfies the requirement is a function
/// of the two strings alone, and `Err` reports which of the two failed to
/// parse, in the parser's words.
#[verifier::external_body]
fn semver_requirement_matches(req: &str, version: &str) -> (r: Result<bool, String>)
    ensures
        (r is Ok) == (semver_req_parses(req@) && semver_version_parses(version@)),
        r matches Result::Ok(b) ==> b == semver_match_of(req@, version@),
{
    let parsed_req = match semver::VersionReq::parse(req) {
        Ok(pr) => pr,
        Err(e) => {
            return Result::Err(e.to_string());
        },
    };
    let parsed_version = match semver::Version::parse(version) {
        Ok(pv) => pv,
        Err(e) => {
            return Result::Err(e.to_string());
        },
    };
    Result::Ok(parsed_req.matches(&parsed_version))
}

/// Whether the binary may run under a `supported_versions` requirement: a
/// local build (version `0.0.0`) always passes; any other version passes
/// exactly when it satisfies the requirement, `Ok` coming back exactly when
/// both strings parse, and an unparsable requirement or version being an
/// error carrying the parser's words.
pub fn check_supported_versions(req: &str, version: &str) -> (r: Result<bool, String>)
    ensures
        version@ == "0.0.0"@ ==> (r matches Result::Ok(b) && b),
        version@ != "0.0.0"@ ==> ((r is Ok) <==> semver_req_parses(req@)
            && semver_version_parses(version@)),
        version@ != "0.0.0"@ ==> (r matches Result::Ok(b) ==> b == semver_match_of(
            req@,
            version@,
        )),
{
    let local = chars_of("0.0.0");
    let version_chars = chars_of(version);
    if crate::text::chars_equal(&version_chars, &local) {
        return Result::Ok(true);
    }
    semver_requirement_matches(req, version)
}

} // verus!
