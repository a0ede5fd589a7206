//! Which AUR packages must be built alongside a requested set.
//!
//! The listing of all AUR packages and the dependency rows of each requested
//! package are handed in as the text the query tool printed; the resolver
//! keeps the dependencies that are AUR packages, sorts each package's list,
//! merges the lists and collapses repeated names.
use vstd::prelude::*;
use itertools::Itertools;
use crate::error::AurtoError;
use crate::order::{
    dedup_runs, lemma_dedup_runs_members, lemma_dedup_runs_sorted, sorted_names, strictly_sorted,
};
use crate::text::{split_on, str_split};

verus! {

broadcast use vstd::seq_lib::group_seq_properties, vstd::seq_lib::group_to_multiset_ensures;

/// The names in a package listing: its non-empty lines.
pub open spec fn listed_names(listing: Seq<char>) -> Seq<Seq<char>> {
    split_on(listing, '\n').filter(|l: Seq<char>| l.len() > 0)
}

/// The second tab-separated field of each row that has one.
pub open spec fn dependency_column(rows: Seq<Seq<char>>) -> Seq<Seq<char>>
    decreases rows.len(),
{
    if rows.len() == 0 {
        Seq::empty()
    } else {
        let prev = dependency_column(rows.drop_last());
        let fields = split_on(rows.last(), '\t');
        if fields.len() >= 2 {
            prev.push(fields[1])
        } else {
            prev
        }
    }
}

/// The dependencies named in the output of a dependency query.
pub open spec fn direct_dependencies(output: Seq<char>) -> Seq<Seq<char>> {
    dependency_column(split_on(output, '\n'))
}

/// The dependencies named in `output` that are known AUR packages, in the order printed.
pub open spec fn aur_deps_of(output: Seq<char>, known: Seq<Seq<char>>) -> Seq<Seq<char>> {
    direct_dependencies(output).filter(|d: Seq<char>| known.contains(d))
}

/// The outcome of querying the dependencies of one requested package:
/// the text the query printed, or `None` when it could not be run.
#[derive(Debug, PartialEq, Eq)]
pub struct DependencyQuery {
    pub package: String,
    pub output: Option<String>,
}

/// `x` is a known AUR dependency of some requested package.
pub open spec fn required_by(queries: Seq<DependencyQuery>, known: Seq<Seq<char>>, x: Seq<char>) -> bool {
    exists|i: int|
        0 <= i < queries.len() && queries[i].output is Some
            && #[trigger] aur_deps_of(queries[i].output->Some_0@, known).contains(x)
}

/// `r` is the resolution of `queries` against `known`: sorted, without
/// repetition, and holding exactly the known dependencies of the requested packages.
pub open spec fn is_resolution(r: Seq<Seq<char>>, queries: Seq<DependencyQuery>, known: Seq<Seq<char>>) -> bool {
    &&& strictly_sorted(r)
    &&& forall|x: Seq<char>| #[trigger] r.contains(x) <==> required_by(queries, known, x)
}

/// Relies on `slice::sort` on `String`s: the same elements, ordered by `Ord`,
/// which is `name_le` on their characters.
#[verifier::external_body]
fn sort_names(v: &mut Vec<String>)
    ensures
        final(v).deep_view().to_multiset() == old(v).deep_view().to_multiset(),
        sorted_names(final(v).deep_view()),
{
    v.sort();
}

/// Relies on `Itertools::kmerge`: every element of every list comes out once,
/// and the result is sorted when each list is.
#[verifier::external_body]
fn kmerge_names(lists: Vec<Vec<String>>) -> (r: Vec<String>)
    ensures
        r.deep_view().to_multiset() == lists.deep_view().flatten().to_multiset(),
        (forall|i: int| 0 <= i < lists.len() ==> sorted_names(#[trigger] lists.deep_view()[i]))
            ==> sorted_names(r.deep_view()),
{
    lists.into_iter().kmerge().collect()
}

/// Relies on `Itertools::dedup`: each element equal to the one before it is dropped.
#[verifier::external_body]
fn dedup_names(v: Vec<String>) -> (r: Vec<String>)
    ensures
        r.deep_view() == dedup_runs(v.deep_view()),
{
    v.into_iter().dedup().collect()
}

pub proof fn lemma_flatten_contains(l: Seq<Seq<Seq<char>>>, x: Seq<char>)
    ensures
        l.flatten().contains(x) <==> exists|i: int| 0 <= i < l.len() && #[trigger] l[i].contains(x),
    decreases l.len(),
{
    if l.len() > 0 {
        let rest = l.drop_first();
        lemma_flatten_contains(rest, x);
        let f = l.flatten();
        assert(f == l[0] + rest.flatten());
        if f.contains(x) {
            let k = choose|k: int| 0 <= k < f.len() && f[k] == x;
            if k < l[0].len() {
                assert(l[0][k] == x);
            } else {
                assert(rest.flatten()[k - l[0].len()] == x);
                let i = choose|i: int| 0 <= i < rest.len() && #[trigger] rest[i].contains(x);
                assert(l[i + 1] == rest[i]);
            }
        }
        if exists|i: int| 0 <= i < l.len() && #[trigger] l[i].contains(x) {
            let i = choose|i: int| 0 <= i < l.len() && #[trigger] l[i].contains(x);
            if i == 0 {
                let k = choose|k: int| 0 <= k < l[0].len() && l[0][k] == x;
                assert(f[k] == x);
            } else {
                assert(rest[i - 1] == l[i]);
                assert(rest.flatten().contains(x));
                let k = choose|k: int| 0 <= k < rest.flatten().len() && rest.flatten()[k] == x;
                assert(f[k + l[0].len()] == x);
            }
        }
    }
}

/// Whether `x` is one of `names`.
pub fn contains_name(names: &Vec<String>, x: &String) -> (r: bool)
    ensures
        r == names.deep_view().contains(x@),
{
    let mut i: usize = 0;
    while i < names.len()
        invariant
            i <= names.len(),
            forall|j: int| 0 <= j < i ==> names.deep_view()[j] != x@,
        decreases names.len() - i,
    {
        if names[i] == *x {
            assert(names.deep_view()[i as int] == x@);
            return true;
        }
        i += 1;
    }
    false
}

/// The AUR packages in a package listing.
pub fn parse_package_list(listing: &str) -> (r: Vec<String>)
    ensures
        r.deep_view() == listed_names(listing@),
{
    let lines = str_split(listing, '\n');
    let ghost lv = lines.deep_view();
    let ghost pred = |l: Seq<char>| l.len() > 0;
    let mut r: Vec<String> = Vec::new();
    let mut i: usize = 0;
    while i < lines.len()
        invariant
            i <= lines.len(),
            lv == lines.deep_view(),
            lv == split_on(listing@, '\n'),
            pred == (|l: Seq<char>| l.len() > 0),
            r.deep_view() == lv.take(i as int).filter(pred),
        decreases lines.len() - i,
    {
        let ghost before = r.deep_view();
        proof {
            assert(lv.take(i + 1) =~= lv.take(i as int).push(lv[i as int]));
            lv.take(i as int).lemma_filter_push(lv[i as int], pred);
        }
        if !lines[i].as_str().is_empty() {
            r.push(lines[i].clone());
            assert(r.deep_view() =~= before.push(lv[i as int]));
        }
        i += 1;
    }
    assert(lv.take(lines.len() as int) =~= lv);
    r
}

/// The known AUR dependencies named in the output of one dependency query, sorted.
pub fn aur_dependencies(output: &str, known: &Vec<String>) -> (r: Vec<String>)
    ensures
        r.deep_view().to_multiset() == aur_deps_of(output@, known.deep_view()).to_multiset(),
        sorted_names(r.deep_view()),
{
    let rows = str_split(output, '\n');
    let ghost rv = rows.deep_view();
    let ghost kv = known.deep_view();
    let ghost pred = |d: Seq<char>| kv.contains(d);
    let mut deps: Vec<String> = Vec::new();
    let mut i: usize = 0;
    while i < rows.len()
        invariant
            i <= rows.len(),
            rv == rows.deep_view(),
            rv == split_on(output@, '\n'),
            kv == known.deep_view(),
            pred == (|d: Seq<char>| kv.contains(d)),
            deps.deep_view() == dependency_column(rv.take(i as int)).filter(pred),
        decreases rows.len() - i,
    {
        let ghost before = deps.deep_view();
        let ghost prefix = rv.take(i as int);
        proof {
            assert(rv.take(i + 1).drop_last() =~= prefix);
            assert(rv.take(i + 1).last() == rv[i as int]);
        }
        let fields = str_split(rows[i].as_str(), '\t');
        if fields.len() >= 2 {
            let d = fields[1].clone();
            proof {
                assert(d@ == split_on(rv[i as int], '\t')[1]);
                dependency_column(prefix).lemma_filter_push(d@, pred);
            }
            if contains_name(known, &d) {
                deps.push(d);
                assert(deps.deep_view() =~= before.push(d@));
            }
        }
        i += 1;
    }
    assert(rv.take(rows.len() as int) =~= rv);
    sort_names(&mut deps);
    deps
}

/// Merge sorted dependency lists into one sorted list without repetition.
pub fn merge_dependency_lists(lists: Vec<Vec<String>>) -> (r: Vec<String>)
    requires
        forall|i: int| 0 <= i < lists.len() ==> sorted_names(#[trigger] lists.deep_view()[i]),
    ensures
        strictly_sorted(r.deep_view()),
        forall|x: Seq<char>| #[trigger] r.deep_view().contains(x)
            <==> exists|i: int| 0 <= i < lists.len() && #[trigger] lists.deep_view()[i].contains(x),
{
    let ghost lv = lists.deep_view();
    let merged = kmerge_names(lists);
    let ghost mv = merged.deep_view();
    let r = dedup_names(merged);
    proof {
        lemma_dedup_runs_sorted(mv);
        lemma_dedup_runs_members(mv);
        assert forall|x: Seq<char>| #[trigger] r.deep_view().contains(x)
            <==> exists|i: int| 0 <= i < lv.len() && #[trigger] lv[i].contains(x) by {
            lemma_flatten_contains(lv, x);
            assert(mv.contains(x) <==> mv.to_multiset().count(x) > 0);
            assert(lv.flatten().contains(x) <==> lv.flatten().to_multiset().count(x) > 0);
        }
    }
    r
}

/// The AUR packages to build alongside the requested ones.
///
/// Fails with the first requested package whose dependency query could not be run.
pub fn resolve(queries: &Vec<DependencyQuery>, known: &Vec<String>) -> (r: Result<Vec<String>, AurtoError>)
    ensures
        r is Err <==> exists|i: int| 0 <= i < queries.len() && #[trigger] queries@[i].output is None,
        r is Err ==> exists|k: int|
            0 <= k < queries.len() && queries@[k].output is None
                && (forall|j: int| 0 <= j < k ==> #[trigger] queries@[j].output is Some)
                && r->Err_0 == (AurtoError::DependencyQuery { package: queries@[k].package }),
        r is Ok ==> is_resolution(r->Ok_0.deep_view(), queries@, known.deep_view()),
{
    let ghost kv = known.deep_view();
    let mut lists: Vec<Vec<String>> = Vec::new();
    let mut i: usize = 0;
    while i < queries.len()
        invariant
            i <= queries.len(),
            kv == known.deep_view(),
            lists.len() == i,
            forall|j: int| 0 <= j < i ==> #[trigger] queries@[j].output is Some,
            forall|j: int| 0 <= j < i ==> sorted_names(#[trigger] lists.deep_view()[j]),
            forall|j: int| 0 <= j < i ==> (#[trigger] lists.deep_view()[j]).to_multiset()
                == aur_deps_of(queries@[j].output->Some_0@, kv).to_multiset(),
        decreases queries.len() - i,
    {
        match &queries[i].output {
            None => {
                return Err(AurtoError::DependencyQuery { package: queries[i].package.clone() });
            },
            Some(out) => {
                let deps = aur_dependencies(out.as_str(), known);
                let ghost before = lists.deep_view();
                lists.push(deps);
                assert(lists.deep_view() =~= before.push(deps.deep_view()));
            },
        }
        i += 1;
    }
    let ghost lv = lists.deep_view();
    let r = merge_dependency_lists(lists);
    proof {
        assert forall|x: Seq<char>| #[trigger] r.deep_view().contains(x)
            <==> required_by(queries@, kv, x) by {
            if r.deep_view().contains(x) {
                let j = choose|j: int| 0 <= j < lv.len() && #[trigger] lv[j].contains(x);
                assert(lv[j].to_multiset().count(x) > 0);
                assert(aur_deps_of(queries@[j].output->Some_0@, kv).contains(x));
            }
            if required_by(queries@, kv, x) {
                let j = choose|j: int| 0 <= j < queries.len() && queries@[j].output is Some
                    && #[trigger] aur_deps_of(queries@[j].output->Some_0@, kv).contains(x);
                assert(aur_deps_of(queries@[j].output->Some_0@, kv).to_multiset().count(x) > 0);
                assert(lv[j].contains(x));
            }
        }
    }
    Ok(r)
}

/// A resolution names no package twice, and only known AUR packages.
pub proof fn lemma_resolution_unique_and_known(r: Seq<Seq<char>>, queries: Seq<DependencyQuery>, known: Seq<Seq<char>>)
    requires
        is_resolution(r, queries, known),
    ensures
        r.no_duplicates(),
        forall|k: int| 0 <= k < r.len() ==> known.contains(#[trigger] r[k]),
{
    assert forall|k: int| 0 <= k < r.len() implies known.contains(#[trigger] r[k]) by {
        assert(r.contains(r[k]));
        let i = choose|i: int| 0 <= i < queries.len() && queries[i].output is Some
            && #[trigger] aur_deps_of(queries[i].output->Some_0@, known).contains(r[k]);
        let f = aur_deps_of(queries[i].output->Some_0@, known);
        let m = choose|m: int| 0 <= m < f.len() && f[m] == r[k];
        direct_dependencies(queries[i].output->Some_0@).lemma_filter_pred(|d: Seq<char>| known.contains(d), m);
    }
}

/// A known AUR package that a requested package depends on directly is in the resolution.
pub proof fn lemma_resolution_includes_direct_dependency(
    r: Seq<Seq<char>>,
    queries: Seq<DependencyQuery>,
    known: Seq<Seq<char>>,
    i: int,
    b: Seq<char>,
)
    requires
        is_resolution(r, queries, known),
        0 <= i < queries.len(),
        queries[i].output is Some,
        direct_dependencies(queries[i].output->Some_0@).contains(b),
        known.contains(b),
    ensures
        r.contains(b),
{
    let deps = direct_dependencies(queries[i].output->Some_0@);
    let m = choose|m: int| 0 <= m < deps.len() && deps[m] == b;
    deps.lemma_filter_contains(|d: Seq<char>| known.contains(d), m);
    assert(aur_deps_of(queries[i].output->Some_0@, known).contains(b));
    assert(required_by(queries, known, b));
}

/// A known AUR package that two requested packages both depend on occurs exactly once.
pub proof fn lemma_shared_dependency_once(
    r: Seq<Seq<char>>,
    queries: Seq<DependencyQuery>,
    known: Seq<Seq<char>>,
    i: int,
    j: int,
    c: Seq<char>,
)
    requires
        is_resolution(r, queries, known),
        0 <= i < queries.len(),
        0 <= j < queries.len(),
        queries[i].output is Some,
        queries[j].output is Some,
        direct_dependencies(queries[i].output->Some_0@).contains(c),
        direct_dependencies(queries[j].output->Some_0@).contains(c),
        known.contains(c),
    ensures
        r.to_multiset().count(c) == 1,
{
    lemma_resolution_includes_direct_dependency(r, queries, known, i, c);
    lemma_resolution_unique_and_known(r, queries, known);
    r.lemma_multiset_has_no_duplicates();
}

/// Packages none of whose dependencies are known AUR packages resolve to nothing.
pub proof fn lemma_no_aur_dependencies_resolves_empty(
    r: Seq<Seq<char>>,
    queries: Seq<DependencyQuery>,
    known: Seq<Seq<char>>,
)
    requires
        is_resolution(r, queries, known),
        forall|i: int, d: Seq<char>|
            0 <= i < queries.len() && queries[i].output is Some
                && #[trigger] direct_dependencies(queries[i].output->Some_0@).contains(d)
                ==> !known.contains(d),
    ensures
        r.len() == 0,
{
    if r.len() > 0 {
        assert(r.contains(r[0]));
        let i = choose|i: int| 0 <= i < queries.len() && queries[i].output is Some
            && #[trigger] aur_deps_of(queries[i].output->Some_0@, known).contains(r[0]);
        let deps = direct_dependencies(queries[i].output->Some_0@);
        deps.lemma_filter_contains_rev(|d: Seq<char>| known.contains(d), r[0]);
        lemma_resolution_unique_and_known(r, queries, known);
    }
}

} // verus!
