//! Recognition of pre-built package archives by their file name.
use vstd::prelude::*;
use crate::error::AurtoError;
use crate::text::{has_infix, split_on, str_contains, str_split, lemma_split_on_nonempty};

verus! {

/// The marker that every package archive name carries (`name-ver-rel-arch.pkg.tar.zst`).
pub open spec fn archive_marker() -> Seq<char> {
    seq!['.', 'p', 'k', 'g', '.', 't', 'a', 'r', '.']
}

pub open spec fn is_package_archive_name(s: Seq<char>) -> bool {
    has_infix(s, archive_marker())
}

/// Accepts `s` exactly when it names a package archive.
pub fn is_valid_pkg_file(s: String) -> (r: Result<(), String>)
    ensures
        r is Ok <==> is_package_archive_name(s@),
        r is Err ==> r->Err_0@ == "pkg file does not end with typical format `.pkg.tar"@,
{
    proof {
        reveal_strlit(".pkg.tar.");
        assert(".pkg.tar."@ =~= archive_marker());
    }
    if str_contains(s.as_str(), ".pkg.tar.") {
        return Ok(());
    }
    Err("pkg file does not end with typical format `.pkg.tar".to_owned())
}

/// Every path names a package archive, or the first one that does not is reported.
pub fn validate_package_files(paths: &Vec<String>) -> (r: Result<(), AurtoError>)
    ensures
        r is Ok <==> forall|i: int| 0 <= i < paths.len() ==> is_package_archive_name(#[trigger] paths@[i]@),
        r is Err ==> exists|k: int|
            0 <= k < paths.len() && !is_package_archive_name(paths@[k]@)
                && (forall|j: int| 0 <= j < k ==> is_package_archive_name(#[trigger] paths@[j]@))
                && r->Err_0 == (AurtoError::InvalidPackageFile { path: paths@[k] }),
{
    let mut i: usize = 0;
    while i < paths.len()
        invariant
            i <= paths.len(),
            forall|j: int| 0 <= j < i ==> is_package_archive_name(#[trigger] paths@[j]@),
        decreases paths.len() - i,
    {
        if is_valid_pkg_file(paths[i].clone()).is_err() {
            return Err(AurtoError::InvalidPackageFile { path: paths[i].clone() });
        }
        i += 1;
    }
    Ok(())
}

/// The last `/`-separated component of a path.
pub open spec fn file_name_of(path: Seq<char>) -> Seq<char> {
    split_on(path, '/').last()
}

/// The name under which the archive at `path` is kept in the package cache.
pub fn file_name(path: &str) -> (r: String)
    ensures
        r@ == file_name_of(path@),
{
    let parts = str_split(path, '/');
    proof {
        lemma_split_on_nonempty(path@, '/');
    }
    let last: usize = parts.len() - 1;
    parts[last].clone()
}

} // verus!
