//! The ways an operation on the repository can fail.
use vstd::prelude::*;

verus! {

/// An outside step of an operation that is not tied to its own failure kind.
#[derive(Clone, Copy, Debug, PartialEq, Eq, Structural)]
pub enum Tool {
    /// Taking the repository lock.
    Lock,
    /// Listing all AUR packages.
    PackageList,
    /// Removing an entry from the archive database.
    ArchiveRemove,
    /// Adding archives to the archive database.
    ArchiveAdd,
    /// Copying an archive into the package cache.
    Copy,
}

#[derive(Clone, Debug, PartialEq, Eq)]
pub enum AurtoError {
    /// A tool could not be launched.
    ProcessSpawn { tool: Tool },
    /// A tool ran and reported failure.
    ProcessExit { tool: Tool },
    /// The dependency query for `package` failed; nothing was built.
    DependencyQuery { package: String },
    /// The chrooted build failed.
    BuildFailure,
    /// Refreshing the system's sync database failed.
    SyncFailure,
    /// Pruning the package cache failed.
    PruneFailure,
    /// `path` does not carry the package archive marker.
    InvalidPackageFile { path: String },
}

} // verus!
