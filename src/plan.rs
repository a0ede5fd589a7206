//! What each repository operation hands to the outside tools: the build
//! invocation, the packages it builds, and the cached archives a removal deletes.
use vstd::prelude::*;
use vstd::string::StringExecFns;
use crate::resolve::contains_name;
use crate::text::{has_infix, str_contains, str_starts_with};

verus! {

broadcast use vstd::seq_lib::group_seq_properties;

/// The arguments of the chrooted build: the fixed database and configuration,
/// `--upgrades` when every outdated package is to be rebuilt, the flags that
/// build without showing the build files unless editing was asked for, an
/// optional read-only bind directory, then the packages.
pub open spec fn build_args_of(
    targets: Seq<Seq<char>>,
    upgrades: bool,
    edit: bool,
    bind: Option<Seq<char>>,
) -> Seq<Seq<char>> {
    seq!["sync"@, "--chroot"@, "--database=aurto"@, "--makepkg-conf=/etc/aurto/makepkg-chroot.conf"@]
        + (if upgrades { seq!["--upgrades"@] } else { Seq::empty() })
        + (if edit { Seq::empty() } else { seq!["--no-view"@, "--no-confirm"@] })
        + (match bind {
        Some(d) => seq!["--bind="@ + d],
        None => Seq::empty(),
    })
        + targets
}

/// The requested packages, then each resolved dependency that was not requested.
pub open spec fn targets_to_build(requested: Seq<Seq<char>>, deps: Seq<Seq<char>>) -> Seq<Seq<char>> {
    requested + deps.filter(|d: Seq<char>| !requested.contains(d))
}

/// The substring that marks a cached package archive.
pub open spec fn cache_marker() -> Seq<char> {
    seq!['.', 'p', 'k', 'g', '.']
}

/// `file` is a cached archive of `pkg`: its name starts with the package name
/// and carries the archive marker.
pub open spec fn is_cached_archive_of(file: Seq<char>, pkg: Seq<char>) -> bool {
    pkg.is_prefix_of(file) && has_infix(file, cache_marker())
}

pub open spec fn cached_archives_of(files: Seq<Seq<char>>, pkg: Seq<char>) -> Seq<Seq<char>> {
    files.filter(|f: Seq<char>| is_cached_archive_of(f, pkg))
}

/// The marker by which the archive-remove tool reports a package it could not remove.
pub open spec fn error_marker() -> Seq<char> {
    seq!['E', 'R', 'R', 'O', 'R']
}

#[derive(Clone, Copy, Debug, PartialEq, Eq, Structural)]
pub enum RemovalOutcome {
    Removed,
    NotFound,
}

pub open spec fn removal_outcome_of(output: Seq<char>) -> RemovalOutcome {
    if has_infix(output, error_marker()) {
        RemovalOutcome::NotFound
    } else {
        RemovalOutcome::Removed
    }
}

/// Reads the archive-remove tool's output: a package is absent from the
/// database exactly when the output carries the error marker.
pub fn detect_removal_outcome(output: &str) -> (r: RemovalOutcome)
    ensures
        r == removal_outcome_of(output@),
{
    proof {
        reveal_strlit("ERROR");
        assert("ERROR"@ =~= error_marker());
    }
    if str_contains(output, "ERROR") {
        RemovalOutcome::NotFound
    } else {
        RemovalOutcome::Removed
    }
}

/// The files of the cache listing that are archives of `pkg`, in listing order.
pub fn matching_cache_files(files: &Vec<String>, pkg: &String) -> (r: Vec<String>)
    ensures
        r.deep_view() == cached_archives_of(files.deep_view(), pkg@),
{
    let ghost fv = files.deep_view();
    let ghost p = pkg@;
    let ghost pred = |f: Seq<char>| is_cached_archive_of(f, p);
    proof {
        reveal_strlit(".pkg.");
        assert(".pkg."@ =~= cache_marker());
    }
    let mut r: Vec<String> = Vec::new();
    let mut i: usize = 0;
    while i < files.len()
        invariant
            i <= files.len(),
            fv == files.deep_view(),
            p == pkg@,
            ".pkg."@ == cache_marker(),
            pred == (|f: Seq<char>| is_cached_archive_of(f, p)),
            r.deep_view() == fv.take(i as int).filter(pred),
        decreases files.len() - i,
    {
        let ghost before = r.deep_view();
        proof {
            assert(fv.take(i + 1) =~= fv.take(i as int).push(fv[i as int]));
            fv.take(i as int).lemma_filter_push(fv[i as int], pred);
        }
        let f = files[i].as_str();
        if str_starts_with(f, pkg.as_str()) && str_contains(f, ".pkg.") {
            r.push(files[i].clone());
            assert(r.deep_view() =~= before.push(fv[i as int]));
        }
        i += 1;
    }
    assert(fv.take(files.len() as int) =~= fv);
    r
}

/// The packages a build is given: the requested ones, then the resolved
/// dependencies that were not requested.
pub fn build_targets(requested: &Vec<String>, deps: &Vec<String>) -> (r: Vec<String>)
    ensures
        r.deep_view() == targets_to_build(requested.deep_view(), deps.deep_view()),
{
    let ghost rv = requested.deep_view();
    let ghost dv = deps.deep_view();
    let ghost pred = |d: Seq<char>| !rv.contains(d);
    let mut r: Vec<String> = requested.clone();
    proof {
        assert(r.deep_view() =~= rv);
        assert(dv.take(0) =~= Seq::<Seq<char>>::empty());
    }
    let mut i: usize = 0;
    while i < deps.len()
        invariant
            i <= deps.len(),
            rv == requested.deep_view(),
            dv == deps.deep_view(),
            pred == (|d: Seq<char>| !rv.contains(d)),
            r.deep_view() == rv + dv.take(i as int).filter(pred),
        decreases deps.len() - i,
    {
        let ghost before = r.deep_view();
        proof {
            assert(dv.take(i + 1) =~= dv.take(i as int).push(dv[i as int]));
            dv.take(i as int).lemma_filter_push(dv[i as int], pred);
        }
        if !contains_name(requested, &deps[i]) {
            r.push(deps[i].clone());
            assert(r.deep_view() =~= before.push(dv[i as int]));
        }
        i += 1;
    }
    assert(dv.take(deps.len() as int) =~= dv);
    r
}

/// The arguments of the chrooted build of `targets`, or of every outdated
/// package when `upgrades` is set.
pub fn build_args(targets: &Vec<String>, upgrades: bool, edit: bool, bind: &Option<String>) -> (r: Vec<String>)
    ensures
        r.deep_view() == build_args_of(
            targets.deep_view(),
            upgrades,
            edit,
            match bind {
                Some(d) => Some(d@),
                None => None,
            },
        ),
{
    let mut r: Vec<String> = Vec::new();
    r.push("sync".to_owned());
    r.push("--chroot".to_owned());
    r.push("--database=aurto".to_owned());
    r.push("--makepkg-conf=/etc/aurto/makepkg-chroot.conf".to_owned());
    if upgrades {
        r.push("--upgrades".to_owned());
    }
    if !edit {
        r.push("--no-view".to_owned());
        r.push("--no-confirm".to_owned());
    }
    match bind {
        Some(d) => {
            r.push("--bind=".to_owned().concat(d.as_str()));
        },
        None => {},
    }
    let ghost head = r.deep_view();
    proof {
        let bv = match bind {
            Some(d) => Some(d@),
            None => None,
        };
        assert(head =~= build_args_of(Seq::empty(), upgrades, edit, bv));
    }
    let ghost tv = targets.deep_view();
    let mut i: usize = 0;
    while i < targets.len()
        invariant
            i <= targets.len(),
            tv == targets.deep_view(),
            r.deep_view() == head + tv.take(i as int),
        decreases targets.len() - i,
    {
        let ghost before = r.deep_view();
        r.push(targets[i].clone());
        assert(r.deep_view() =~= before.push(tv[i as int]));
        assert(tv.take(i + 1) =~= tv.take(i as int).push(tv[i as int]));
        assert(r.deep_view() =~= head + tv.take(i + 1));
        i += 1;
    }
    proof {
        let bv = match bind {
            Some(d) => Some(d@),
            None => None,
        };
        assert(tv.take(targets.len() as int) =~= tv);
        assert(r.deep_view() =~= build_args_of(tv, upgrades, edit, bv));
    }
    r
}

} // verus!
