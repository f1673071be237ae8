//! The fan-out aggregation core: merging per-repository outcomes under
//! partial failure, client-side label filtering, and deterministic ordering
//! of the merged result.

use vstd::prelude::*;
use vstd::multiset::Multiset;
use vstd::seq_lib::lemma_multiset_commutative;

use crate::text::eq_ignore_case;
use crate::text::lemma_lex_le_antisymmetric;
use crate::text::lemma_lex_le_reflexive;
use crate::text::lemma_lex_le_total;
use crate::text::lemma_lex_le_transitive;
use crate::text::lex_le;
use crate::text::str_eq_ignore_case;
use crate::text::str_lex_le;
use crate::types::Issue;
use crate::types::Label;

verus! {

// --- Label filtering ------------------------------------------------------

/// A label satisfies a filter term when the names agree up to ASCII case.
pub open spec fn label_matches_term(l: Label, term: Seq<char>) -> bool {
    eq_ignore_case(l.name@, term)
}

/// An issue passes the filter when at least one of its labels matches at
/// least one filter term.
pub open spec fn issue_matches_filter(issue: Issue, filter: Seq<Seq<char>>) -> bool {
    exists|i: int, j: int|
        0 <= i < filter.len() && 0 <= j < issue.labels@.len() && label_matches_term(
            #[trigger] issue.labels@[j],
            #[trigger] filter[i],
        )
}

/// Label filtering: an empty filter keeps everything; a non-empty filter
/// keeps exactly the issues with a matching label.
pub open spec fn spec_filter_issues(issues: Seq<Issue>, filter: Seq<Seq<char>>) -> Seq<Issue> {
    if filter.len() == 0 {
        issues
    } else {
        issues.filter(|issue: Issue| issue_matches_filter(issue, filter))
    }
}

/// An empty label filter keeps every issue set unchanged.
pub proof fn lemma_empty_filter_identity(issues: Seq<Issue>)
    ensures
        spec_filter_issues(issues, Seq::empty()) == issues,
{
}

/// Decide whether `issue` passes the label filter.
pub fn issue_matches(issue: &Issue, filter: &Vec<String>) -> (r: bool)
    ensures
        r == issue_matches_filter(*issue, filter.deep_view()),
{
    let mut i: usize = 0;
    while i < filter.len()
        invariant
            i <= filter@.len(),
            filter.deep_view().len() == filter@.len(),
            forall|k: int| 0 <= k < filter@.len() ==> filter.deep_view()[k] == filter@[k]@,
            forall|i2: int, j2: int|
                0 <= i2 < i && 0 <= j2 < issue.labels@.len() ==> !label_matches_term(
                    #[trigger] issue.labels@[j2],
                    #[trigger] filter.deep_view()[i2],
                ),
        decreases filter@.len() - i,
    {
        let term = &filter[i];
        let mut j: usize = 0;
        while j < issue.labels.len()
            invariant
                i < filter@.len(),
                filter.deep_view().len() == filter@.len(),
                filter.deep_view()[i as int] == filter@[i as int]@,
                term == filter@[i as int],
                j <= issue.labels@.len(),
                forall|j2: int|
                    0 <= j2 < j ==> !label_matches_term(
                        #[trigger] issue.labels@[j2],
                        filter.deep_view()[i as int],
                    ),
            decreases issue.labels@.len() - j,
        {
            if str_eq_ignore_case(issue.labels[j].name.as_str(), term.as_str()) {
                assert(label_matches_term(issue.labels@[j as int], filter.deep_view()[i as int]));
                return true;
            }
            j += 1;
        }
        i += 1;
    }
    false
}

/// Retain exactly the issues passing the label filter; an empty filter is a
/// no-op.
#[verifier::rlimit(100)]
pub fn filter_issues(issues: Vec<Issue>, filter: &Vec<String>) -> (r: Vec<Issue>)
    ensures
        r@ == spec_filter_issues(issues@, filter.deep_view()),
{
    broadcast use vstd::seq_lib::group_seq_properties;

    if filter.len() == 0 {
        return issues;
    }
    let ghost orig = issues@;
    let ghost pred = |issue: Issue| issue_matches_filter(issue, filter.deep_view());
    let mut rest = issues;
    let mut out: Vec<Issue> = Vec::new();
    proof {
        assert(orig.take(0) =~= Seq::<Issue>::empty());
        assert(orig.take(0).filter(pred) =~= Seq::<Issue>::empty()) by {
            reveal(Seq::filter);
        }
    }
    while rest.len() > 0
        invariant
            filter.deep_view().len() > 0,
            rest@.len() <= orig.len(),
            rest@ =~= orig.skip(orig.len() - rest@.len()),
            out@ =~= orig.take(orig.len() - rest@.len()).filter(pred),
            pred == (|issue: Issue| issue_matches_filter(issue, filter.deep_view())),
        decreases rest@.len(),
    {
        let ghost i = orig.len() - rest@.len();
        let issue = rest.remove(0);
        proof {
            assert(issue == orig[i]);
            assert(rest@ =~= orig.skip(i + 1));
            assert(orig.take(i + 1).drop_last() =~= orig.take(i));
            assert(orig.take(i + 1).last() == orig[i]);
        }
        if issue_matches(&issue, filter) {
            out.push(issue);
            proof {
                reveal(Seq::filter);
                assert(out@ =~= orig.take(i + 1).filter(pred));
            }
        } else {
            proof {
                reveal(Seq::filter);
                assert(out@ =~= orig.take(i + 1).filter(pred));
            }
        }
    }
    proof {
        assert(orig.take(orig.len() as int) =~= orig);
    }
    out
}

// --- Merged entries and their mathematical views --------------------------

/// One surviving entry of the merged result: a repository and the issues it
/// contributed after filtering.
#[derive(Debug, Clone)]
pub struct RepoIssues {
    pub repo_full_name: String,
    pub issues: Vec<Issue>,
}

/// The model of an entry: the repository full name and the issue sequence.
pub open spec fn entry_view(e: RepoIssues) -> (Seq<char>, Seq<Issue>) {
    (e.repo_full_name@, e.issues@)
}

/// The model of a sequence of entries.
pub open spec fn entry_views(entries: Seq<RepoIssues>) -> Seq<(Seq<char>, Seq<Issue>)> {
    entries.map_values(|e: RepoIssues| entry_view(e))
}

/// Entries sorted lexicographically by repository full name.
pub open spec fn sorted_by_name(entries: Seq<(Seq<char>, Seq<Issue>)>) -> bool {
    forall|i: int, j: int|
        0 <= i < j < entries.len() ==> lex_le(#[trigger] entries[i].0, #[trigger] entries[j].0)
}

/// No two entries name the same repository.
pub open spec fn distinct_names(entries: Seq<(Seq<char>, Seq<Issue>)>) -> bool {
    forall|i: int, j: int|
        0 <= i < j < entries.len() ==> (#[trigger] entries[i].0) != (#[trigger] entries[j].0)
}

/// Inserting into a sequence inserts into its multiset.
proof fn lemma_insert_to_multiset<A>(s: Seq<A>, i: int, x: A)
    requires
        0 <= i <= s.len(),
    ensures
        s.insert(i, x).to_multiset() == s.to_multiset().insert(x),
{
    broadcast use vstd::seq_lib::group_to_multiset_ensures;

    let pre = s.take(i);
    let post = s.skip(i);
    assert(s.insert(i, x) =~= pre + (seq![x] + post));
    assert(s =~= pre + post);
    lemma_multiset_commutative(pre, seq![x] + post);
    lemma_multiset_commutative(seq![x], post);
    lemma_multiset_commutative(pre, post);
    assert(seq![x] =~= Seq::<A>::empty().push(x));
    assert(seq![x].to_multiset() =~= Multiset::<A>::empty().insert(x));
    assert(s.insert(i, x).to_multiset() =~= s.to_multiset().insert(x));
}

/// Dropping the first element removes one copy of it from the multiset.
proof fn lemma_drop_first_to_multiset<A>(s: Seq<A>)
    requires
        s.len() > 0,
    ensures
        s.drop_first().to_multiset() == s.to_multiset().remove(s[0]),
{
    broadcast use vstd::seq_lib::group_to_multiset_ensures;
    broadcast use vstd::multiset::group_multiset_axioms;

    assert(s =~= seq![s[0]] + s.drop_first());
    lemma_multiset_commutative(seq![s[0]], s.drop_first());
    assert(seq![s[0]] =~= Seq::<A>::empty().push(s[0]));
    assert(seq![s[0]].to_multiset() =~= Multiset::<A>::empty().insert(s[0]));
    assert(s.drop_first().to_multiset() =~= s.to_multiset().remove(s[0]));
}

/// Mapping a view over an insertion inserts the mapped value.
proof fn lemma_entry_views_insert(s: Seq<RepoIssues>, i: int, x: RepoIssues)
    requires
        0 <= i <= s.len(),
    ensures
        entry_views(s.insert(i, x)) =~= entry_views(s).insert(i, entry_view(x)),
{
}

/// Sort entries by repository full name, preserving them as a multiset.
#[verifier::rlimit(100)]
pub fn sort_entries(entries: Vec<RepoIssues>) -> (r: Vec<RepoIssues>)
    ensures
        sorted_by_name(entry_views(r@)),
        entry_views(r@).to_multiset() == entry_views(entries@).to_multiset(),
{
    broadcast use vstd::seq_lib::group_to_multiset_ensures;

    let ghost orig = entries@;
    let mut rest = entries;
    let mut out: Vec<RepoIssues> = Vec::new();
    proof {
        assert(entry_views(orig.take(0)) =~= Seq::<(Seq<char>, Seq<Issue>)>::empty());
        assert(entry_views(out@) =~= Seq::<(Seq<char>, Seq<Issue>)>::empty());
        assert(entry_views(out@).to_multiset() =~= entry_views(orig.take(0)).to_multiset());
    }
    while rest.len() > 0
        invariant
            rest@.len() <= orig.len(),
            rest@ =~= orig.skip(orig.len() - rest@.len()),
            sorted_by_name(entry_views(out@)),
            entry_views(out@).to_multiset() == entry_views(
                orig.take(orig.len() - rest@.len()),
            ).to_multiset(),
        decreases rest@.len(),
    {
        let ghost i = orig.len() - rest@.len();
        let x = rest.remove(0);
        proof {
            assert(x == orig[i]);
            assert(rest@ =~= orig.skip(i + 1));
        }
        // Find the first position whose name does not precede `x`'s.
        let mut p: usize = 0;
        while p < out.len() && str_lex_le(out[p].repo_full_name.as_str(), x.repo_full_name.as_str())
            invariant
                p <= out@.len(),
                forall|q: int|
                    0 <= q < p ==> lex_le(#[trigger] entry_views(out@)[q].0, x.repo_full_name@),
            decreases out@.len() - p,
        {
            proof {
                assert(entry_views(out@)[p as int].0 == out@[p as int].repo_full_name@);
            }
            p += 1;
        }
        proof {
            let ghost ov = entry_views(out@);
            if (p as int) < ov.len() {
                assert(!lex_le(out@[p as int].repo_full_name@, x.repo_full_name@));
                lemma_lex_le_total(out@[p as int].repo_full_name@, x.repo_full_name@);
                assert(lex_le(x.repo_full_name@, ov[p as int].0));
            }
            // After insertion the sequence stays sorted.
            let ghost nv = ov.insert(p as int, entry_view(x));
            assert forall|a: int, b: int| 0 <= a < b < nv.len() implies lex_le(
                #[trigger] nv[a].0,
                #[trigger] nv[b].0,
            ) by {
                if a < p && b == p {
                    assert(nv[a] == ov[a]);
                    assert(lex_le(ov[a].0, x.repo_full_name@));
                } else if a == p && b > p {
                    assert(nv[b] == ov[b - 1]);
                    assert(b - 1 >= p);
                    if b - 1 == p {
                        assert(lex_le(x.repo_full_name@, ov[p as int].0));
                    } else {
                        assert(lex_le(x.repo_full_name@, ov[p as int].0));
                        assert(lex_le(ov[p as int].0, ov[b - 1].0));
                        lemma_lex_le_transitive(x.repo_full_name@, ov[p as int].0, ov[b - 1].0);
                    }
                } else if a < p && b > p {
                    assert(nv[a] == ov[a]);
                    assert(nv[b] == ov[b - 1]);
                    if b - 1 == a {
                        assert(lex_le(ov[a].0, x.repo_full_name@));
                        assert(lex_le(x.repo_full_name@, nv[b].0));
                        lemma_lex_le_transitive(nv[a].0, x.repo_full_name@, nv[b].0);
                    } else {
                        assert(lex_le(ov[a].0, ov[b - 1].0));
                    }
                } else if b < p {
                    assert(nv[a] == ov[a] && nv[b] == ov[b]);
                } else if a > p {
                    assert(nv[a] == ov[a - 1] && nv[b] == ov[b - 1]);
                }
            }
            lemma_entry_views_insert(out@, p as int, x);
            lemma_insert_to_multiset(ov, p as int, entry_view(x));
            // The processed prefix grows by `x`.
            assert(orig.take(i + 1).drop_last() =~= orig.take(i));
            assert(orig.take(i + 1).last() == orig[i]);
            assert(entry_views(orig.take(i + 1)) =~= entry_views(orig.take(i)).push(entry_view(x)));
            vstd::seq_lib::to_multiset_build(entry_views(orig.take(i)), entry_view(x));
            assert(entry_views(orig.take(i)).push(entry_view(x)).to_multiset() == entry_views(
                orig.take(i),
            ).to_multiset().insert(entry_view(x)));
        }
        let ghost out_before = out@;
        out.insert(p, x);
        proof {
            assert(out@ == out_before.insert(p as int, x));
            assert(entry_views(out@).to_multiset() == entry_views(out_before).to_multiset().insert(
                entry_view(x),
            ));
            assert(entry_views(out@).to_multiset() == entry_views(orig.take(i + 1)).to_multiset());
        }
    }
    proof {
        assert(orig.take(orig.len() as int) =~= orig);
    }
    out
}

// --- Fan-out outcomes and their aggregation --------------------------------

/// The outcome of one repository's fetch: the issues, or the failure reason.
#[derive(Debug)]
pub enum FetchOutcome {
    Success(Vec<Issue>),
    Failure(String),
}

/// One repository's tagged outcome, in enumeration order.
#[derive(Debug)]
pub struct RepoFetch {
    pub repo_full_name: String,
    pub outcome: FetchOutcome,
}

/// The model of an outcome: the repository full name, and either the fetched
/// issues or the failure reason.
pub open spec fn outcome_view(f: RepoFetch) -> (Seq<char>, Result<Seq<Issue>, Seq<char>>) {
    match f.outcome {
        FetchOutcome::Success(issues) => (f.repo_full_name@, Ok(issues@)),
        FetchOutcome::Failure(reason) => (f.repo_full_name@, Err(reason@)),
    }
}

/// The model of a sequence of outcomes.
pub open spec fn outcome_views(s: Seq<RepoFetch>) -> Seq<
    (Seq<char>, Result<Seq<Issue>, Seq<char>>),
> {
    s.map_values(|f: RepoFetch| outcome_view(f))
}

/// The warning line reported for a failed repository.
pub open spec fn spec_warning_line(name: Seq<char>, reason: Seq<char>) -> Seq<char> {
    "Warning: Failed to list issues for "@ + name + ": "@ + reason
}

/// The warnings of a fan-out: one line per failed repository, in enumeration
/// order; successes contribute none.
pub open spec fn spec_warnings(o: Seq<(Seq<char>, Result<Seq<Issue>, Seq<char>>)>) -> Seq<
    Seq<char>,
>
    decreases o.len(),
{
    if o.len() == 0 {
        Seq::empty()
    } else {
        spec_warnings(o.drop_last()) + (match o.last().1 {
            Result::Err(reason) => seq![spec_warning_line(o.last().0, reason)],
            Result::Ok(_) => Seq::empty(),
        })
    }
}

/// What one outcome contributes to the merged result: its filtered issues
/// when the fetch succeeded and any survived, nothing otherwise.
pub open spec fn spec_survivor_of(
    p: (Seq<char>, Result<Seq<Issue>, Seq<char>>),
    filter: Seq<Seq<char>>,
) -> Seq<(Seq<char>, Seq<Issue>)> {
    match p.1 {
        Result::Ok(issues) => if spec_filter_issues(issues, filter).len() > 0 {
            seq![(p.0, spec_filter_issues(issues, filter))]
        } else {
            Seq::empty()
        },
        Result::Err(_) => Seq::empty(),
    }
}

/// The surviving entries of a fan-out, in enumeration order: each successful
/// repository with its filtered issues, dropped entirely when none remain;
/// failures contribute nothing.
pub open spec fn spec_survivors(
    o: Seq<(Seq<char>, Result<Seq<Issue>, Seq<char>>)>,
    filter: Seq<Seq<char>>,
) -> Seq<(Seq<char>, Seq<Issue>)>
    decreases o.len(),
{
    if o.len() == 0 {
        Seq::empty()
    } else {
        spec_survivors(o.drop_last(), filter) + spec_survivor_of(o.last(), filter)
    }
}

/// Build the warning line for one failed repository.
pub fn warning_line(name: &str, reason: &str) -> (r: String)
    ensures
        r@ == spec_warning_line(name@, reason@),
{
    let mut out = "Warning: Failed to list issues for ".to_owned();
    out.append(name);
    out.append(": ");
    out.append(reason);
    proof {
        assert(out@ =~= spec_warning_line(name@, reason@));
    }
    out
}

/// The merged result of one fan-out: the surviving entries, sorted by
/// repository full name, and the warnings for the failed repositories.
#[derive(Debug)]
pub struct AggregationResult {
    pub entries: Vec<RepoIssues>,
    pub warnings: Vec<String>,
}

/// Merge per-repository outcomes under partial failure: apply the label
/// filter to each success, drop repositories left without issues, sort the
/// survivors by repository full name, and keep one warning per failure.
#[verifier::rlimit(100)]
pub fn aggregate(outcomes: Vec<RepoFetch>, filter: &Vec<String>) -> (r: AggregationResult)
    ensures
        sorted_by_name(entry_views(r.entries@)),
        entry_views(r.entries@).to_multiset() == spec_survivors(
            outcome_views(outcomes@),
            filter.deep_view(),
        ).to_multiset(),
        r.warnings@.map_values(|w: String| w@) == spec_warnings(outcome_views(outcomes@)),
{
    let ghost orig = outcomes@;
    let ghost fv = filter.deep_view();
    let mut rest = outcomes;
    let mut collected: Vec<RepoIssues> = Vec::new();
    let mut warnings: Vec<String> = Vec::new();
    proof {
        assert(outcome_views(orig.take(0)) =~= Seq::<
            (Seq<char>, Result<Seq<Issue>, Seq<char>>),
        >::empty());
        assert(entry_views(collected@) =~= spec_survivors(outcome_views(orig.take(0)), fv));
        assert(warnings@.map_values(|w: String| w@) =~= spec_warnings(outcome_views(orig.take(0))));
    }
    while rest.len() > 0
        invariant
            fv == filter.deep_view(),
            rest@.len() <= orig.len(),
            rest@ =~= orig.skip(orig.len() - rest@.len()),
            entry_views(collected@) =~= spec_survivors(
                outcome_views(orig.take(orig.len() - rest@.len())),
                fv,
            ),
            warnings@.map_values(|w: String| w@) =~= spec_warnings(
                outcome_views(orig.take(orig.len() - rest@.len())),
            ),
        decreases rest@.len(),
    {
        let ghost i = orig.len() - rest@.len();
        let f = rest.remove(0);
        let ghost f_spec = f;
        proof {
            assert(f_spec == orig[i]);
            assert(rest@ =~= orig.skip(i + 1));
            assert(orig.take(i + 1).drop_last() =~= orig.take(i));
            assert(orig.take(i + 1).last() == orig[i]);
            assert(outcome_views(orig.take(i + 1)).drop_last() =~= outcome_views(orig.take(i)));
            assert(outcome_views(orig.take(i + 1)).last() == outcome_view(f_spec));
        }
        let RepoFetch { repo_full_name: name, outcome } = f;
        match outcome {
            FetchOutcome::Success(issues) => {
                proof {
                    assert(outcome_view(f_spec) == (name@, Result::<Seq<Issue>, Seq<char>>::Ok(
                        issues@,
                    )));
                }
                let kept = filter_issues(issues, filter);
                if kept.len() > 0 {
                    let ghost before = collected@;
                    collected.push(
                        RepoIssues { repo_full_name: name, issues: kept },
                    );
                    proof {
                        assert(entry_views(collected@) =~= entry_views(before).push(
                            (f_spec.repo_full_name@, spec_filter_issues(issues@, fv)),
                        ));
                        assert(entry_views(collected@) =~= spec_survivors(
                            outcome_views(orig.take(i + 1)),
                            fv,
                        ));
                    }
                } else {
                    proof {
                        assert(entry_views(collected@) =~= spec_survivors(
                            outcome_views(orig.take(i + 1)),
                            fv,
                        ));
                    }
                }
                proof {
                    assert(warnings@.map_values(|w: String| w@) =~= spec_warnings(
                        outcome_views(orig.take(i + 1)),
                    ));
                }
            },
            FetchOutcome::Failure(reason) => {
                proof {
                    assert(outcome_view(f_spec) == (name@, Result::<Seq<Issue>, Seq<char>>::Err(
                        reason@,
                    )));
                }
                let ghost wbefore = warnings@;
                let w = warning_line(name.as_str(), reason.as_str());
                warnings.push(w);
                proof {
                    assert(warnings@.map_values(|w2: String| w2@) =~= wbefore.map_values(
                        |w2: String| w2@,
                    ).push(spec_warning_line(f_spec.repo_full_name@, reason@)));
                    assert(warnings@.map_values(|w2: String| w2@) =~= spec_warnings(
                        outcome_views(orig.take(i + 1)),
                    ));
                    assert(entry_views(collected@) =~= spec_survivors(
                        outcome_views(orig.take(i + 1)),
                        fv,
                    ));
                }
            },
        }
    }
    proof {
        assert(orig.take(orig.len() as int) =~= orig);
    }
    let entries = sort_entries(collected);
    AggregationResult { entries, warnings }
}

/// Removing one outcome removes exactly its contribution from the survivors,
/// as multisets.
proof fn lemma_survivors_remove(
    o: Seq<(Seq<char>, Result<Seq<Issue>, Seq<char>>)>,
    filter: Seq<Seq<char>>,
    k: int,
)
    requires
        0 <= k < o.len(),
    ensures
        spec_survivors(o, filter).to_multiset() == spec_survivors(
            o.remove(k),
            filter,
        ).to_multiset().add(spec_survivor_of(o[k], filter).to_multiset()),
    decreases o.len(),
{
    broadcast use vstd::seq_lib::group_to_multiset_ensures;
    broadcast use vstd::multiset::group_multiset_axioms;

    let svs = spec_survivors(o, filter);
    let prefix = spec_survivors(o.drop_last(), filter);
    let last_part = spec_survivor_of(o.last(), filter);
    lemma_multiset_commutative(prefix, last_part);
    if k == o.len() - 1 {
        assert(o.remove(k) =~= o.drop_last());
        assert(svs.to_multiset() =~= spec_survivors(o.remove(k), filter).to_multiset().add(
            spec_survivor_of(o[k], filter).to_multiset(),
        ));
    } else {
        lemma_survivors_remove(o.drop_last(), filter, k);
        assert(o.remove(k).drop_last() =~= o.drop_last().remove(k));
        assert(o.remove(k).last() == o.last());
        let shorter = spec_survivors(o.drop_last().remove(k), filter);
        assert(spec_survivors(o.remove(k), filter) == shorter + last_part);
        lemma_multiset_commutative(shorter, last_part);
        assert(svs.to_multiset() =~= spec_survivors(o.remove(k), filter).to_multiset().add(
            spec_survivor_of(o[k], filter).to_multiset(),
        ));
    }
}

/// Outcome sequences holding the same fetches, in whatever order they were
/// gathered, yield the same survivors as a multiset.
pub proof fn lemma_survivors_permutation_invariant(
    o1: Seq<(Seq<char>, Result<Seq<Issue>, Seq<char>>)>,
    o2: Seq<(Seq<char>, Result<Seq<Issue>, Seq<char>>)>,
    filter: Seq<Seq<char>>,
)
    requires
        o1.to_multiset() == o2.to_multiset(),
    ensures
        spec_survivors(o1, filter).to_multiset() == spec_survivors(o2, filter).to_multiset(),
    decreases o1.len(),
{
    broadcast use vstd::seq_lib::group_to_multiset_ensures;
    broadcast use vstd::multiset::group_multiset_axioms;

    if o1.len() == 0 {
        assert(o2.to_multiset().len() == 0);
        assert(o2 =~= o1);
    } else {
        let last = o1.last();
        assert(o1.to_multiset().contains(last));
        assert(o2.to_multiset().contains(last));
        let k = choose|k: int| 0 <= k < o2.len() && o2[k] == last;
        lemma_survivors_remove(o1, filter, o1.len() - 1);
        lemma_survivors_remove(o2, filter, k);
        assert(o1.remove(o1.len() - 1) =~= o1.drop_last());
        assert(o1.drop_last().to_multiset() =~= o1.to_multiset().remove(last));
        lemma_survivors_permutation_invariant(o1.drop_last(), o2.remove(k), filter);
    }
}

/// Fan-out determinism: whatever order the per-repository outcomes were
/// gathered in, any two sorted merged results built from them are identical,
/// provided no two surviving entries share a repository name.
pub proof fn lemma_fan_out_deterministic(
    o1: Seq<(Seq<char>, Result<Seq<Issue>, Seq<char>>)>,
    o2: Seq<(Seq<char>, Result<Seq<Issue>, Seq<char>>)>,
    filter: Seq<Seq<char>>,
    e1: Seq<(Seq<char>, Seq<Issue>)>,
    e2: Seq<(Seq<char>, Seq<Issue>)>,
)
    requires
        o1.to_multiset() == o2.to_multiset(),
        sorted_by_name(e1),
        sorted_by_name(e2),
        distinct_names(e1),
        e1.to_multiset() == spec_survivors(o1, filter).to_multiset(),
        e2.to_multiset() == spec_survivors(o2, filter).to_multiset(),
    ensures
        e1 == e2,
{
    lemma_survivors_permutation_invariant(o1, o2, filter);
    lemma_sorted_entries_unique(e1, e2);
}

/// Every surviving entry carries the name of some successfully fetched
/// repository.
proof fn lemma_survivor_names(
    o: Seq<(Seq<char>, Result<Seq<Issue>, Seq<char>>)>,
    filter: Seq<Seq<char>>,
)
    ensures
        forall|i: int|
            0 <= i < spec_survivors(o, filter).len() ==> exists|j: int|
                0 <= j < o.len() && (#[trigger] o[j]).1 is Ok && (#[trigger] spec_survivors(
                    o,
                    filter,
                )[i]).0 == o[j].0,
    decreases o.len(),
{
    if o.len() > 0 {
        lemma_survivor_names(o.drop_last(), filter);
        let s = spec_survivors(o, filter);
        let prefix = spec_survivors(o.drop_last(), filter);
        assert forall|i: int| 0 <= i < s.len() implies exists|j: int|
            0 <= j < o.len() && (#[trigger] o[j]).1 is Ok && (#[trigger] s[i]).0 == o[j].0 by {
            if i < prefix.len() {
                let j = choose|j: int|
                    0 <= j < o.drop_last().len() && (#[trigger] o.drop_last()[j]).1 is Ok
                        && prefix[i].0 == o.drop_last()[j].0;
                assert(o[j] == o.drop_last()[j]);
                assert(o[j].1 is Ok && s[i].0 == o[j].0);
            } else {
                let j = o.len() - 1;
                assert(o[j].1 is Ok && s[i].0 == o[j].0);
            }
        }
    }
}

/// A repository whose fetch failed contributes no entry to the merged
/// result, provided no other repository shares its name.
pub proof fn lemma_failed_repo_contributes_no_entry(
    o: Seq<(Seq<char>, Result<Seq<Issue>, Seq<char>>)>,
    filter: Seq<Seq<char>>,
    k: int,
)
    requires
        0 <= k < o.len(),
        o[k].1 is Err,
        forall|i: int, j: int|
            0 <= i < j < o.len() ==> (#[trigger] o[i]).0 != (#[trigger] o[j]).0,
    ensures
        forall|i: int|
            0 <= i < spec_survivors(o, filter).len() ==> (#[trigger] spec_survivors(o, filter)[i]).0
                != o[k].0,
{
    lemma_survivor_names(o, filter);
    let s = spec_survivors(o, filter);
    assert forall|i: int| 0 <= i < s.len() implies (#[trigger] s[i]).0 != o[k].0 by {
        let j = choose|j: int| 0 <= j < o.len() && (#[trigger] o[j]).1 is Ok && s[i].0 == o[j].0;
        assert(j != k);
    }
}

/// A fan-out reports exactly one warning per failed repository.
pub proof fn lemma_one_warning_per_failure(o: Seq<(Seq<char>, Result<Seq<Issue>, Seq<char>>)>)
    ensures
        spec_warnings(o).len() == o.filter(
            |p: (Seq<char>, Result<Seq<Issue>, Seq<char>>)| p.1 is Err,
        ).len(),
    decreases o.len(),
{
    reveal(Seq::filter);
    if o.len() > 0 {
        lemma_one_warning_per_failure(o.drop_last());
    }
}

/// Two sorted merged results with the same entries and no repeated
/// repository names are identical: the merged order is a pure function of
/// the surviving entries, independent of arrival order.
pub proof fn lemma_sorted_entries_unique(
    x: Seq<(Seq<char>, Seq<Issue>)>,
    y: Seq<(Seq<char>, Seq<Issue>)>,
)
    requires
        sorted_by_name(x),
        sorted_by_name(y),
        distinct_names(x),
        x.to_multiset() == y.to_multiset(),
    ensures
        x == y,
    decreases x.len(),
{
    broadcast use vstd::seq_lib::group_to_multiset_ensures;
    broadcast use vstd::multiset::group_multiset_axioms;

    if x.len() == 0 {
        assert(y.to_multiset().len() == 0);
        assert(x =~= y);
    } else if y.len() == 0 {
        assert(x.to_multiset().len() == 0);
        assert(x.to_multiset().contains(x[0]));
    } else {
        assert(x.to_multiset().contains(x[0]));
        assert(y.to_multiset().contains(x[0]));
        assert(x.to_multiset().contains(y[0]));
        let i = choose|i: int| 0 <= i < y.len() && y[i] == x[0];
        let j = choose|j: int| 0 <= j < x.len() && x[j] == y[0];
        lemma_lex_le_reflexive(x[0].0);
        lemma_lex_le_reflexive(y[0].0);
        assert(lex_le(y[0].0, y[i].0));
        assert(lex_le(x[0].0, x[j].0));
        assert(lex_le(y[0].0, x[0].0));
        assert(lex_le(x[0].0, y[0].0));
        lemma_lex_le_antisymmetric(x[0].0, y[0].0);
        assert(x[j] == y[0]);
        assert(x[j].0 == x[0].0);
        if j != 0 {
            assert(x[0].0 != x[j].0);
        }
        assert(x[0] == y[0]);
        lemma_drop_first_to_multiset(x);
        lemma_drop_first_to_multiset(y);
        assert(sorted_by_name(x.drop_first()));
        assert(sorted_by_name(y.drop_first()));
        assert(distinct_names(x.drop_first()));
        lemma_sorted_entries_unique(x.drop_first(), y.drop_first());
        assert(x =~= seq![x[0]] + x.drop_first());
        assert(y =~= seq![y[0]] + y.drop_first());
        assert(x =~= y);
    }
}

} // verus!
