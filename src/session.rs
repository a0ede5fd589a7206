//! The decisions of one repository operation, as a state machine.
//!
//! A `Session` tells its driver which outside step to perform next (an
//! `Action`) and is told how that step went (an `Event`). Every operation
//! takes the repository lock before its first mutating step and gives it up
//! before it finishes; a failed step ends the operation, and no later step runs.
use vstd::prelude::*;
use crate::error::{AurtoError, Tool};
use crate::package_file::{file_name, file_name_of, is_package_archive_name, validate_package_files};
use crate::plan::{
    build_args, build_args_of, build_targets, cached_archives_of, detect_removal_outcome,
    matching_cache_files, removal_outcome_of, targets_to_build, RemovalOutcome,
};
use crate::resolve::{is_resolution, listed_names, parse_package_list, resolve, DependencyQuery};

verus! {

#[derive(Clone, Copy, Debug, PartialEq, Eq, Structural)]
pub enum Operation {
    Add,
    Remove,
    AddPkg,
    Update,
}

#[derive(Clone, Copy, Debug, PartialEq, Eq, Structural)]
pub enum Phase {
    Start,
    Locking,
    Listing,
    Querying,
    SyncingBefore,
    Building,
    SyncingAfter,
    Pruning,
    Removing,
    ScanningCache,
    Deleting,
    Adding,
    Copying,
    Releasing,
    Done,
}

/// How the last requested step went.
#[derive(Debug, PartialEq, Eq)]
pub enum Event {
    /// The step completed.
    Succeeded,
    /// The step ran and reported failure.
    Failed,
    /// The step could not be started.
    NotLaunched,
    /// The step completed and printed this text.
    Output(String),
    /// The step completed with these file names: the regular files of the
    /// cache for `ListCache`, the files removed for `DeleteCacheFiles`.
    Files(Vec<String>),
}

/// The next step for the driver.
#[derive(Debug, PartialEq, Eq)]
pub enum Action {
    /// Take the repository lock.
    AcquireLock,
    /// Print the names of all AUR packages.
    ListKnownPackages,
    /// Print the dependency rows of one package.
    QueryDependencies(String),
    /// Run the chrooted build with these arguments.
    Build(Vec<String>),
    /// Remove one package from the archive database; report its output.
    RemoveEntry(String),
    /// List the regular files of the package cache.
    ListCache,
    /// Delete these files of the package cache; report which went.
    DeleteCacheFiles(Vec<String>),
    /// Add these archives to the archive database.
    AddEntries(Vec<String>),
    /// Copy the archive at `from` into the package cache as `name`.
    CopyToCache { from: String, name: String },
    /// Refresh the system's sync database for the repository.
    Sync,
    /// Prune the package cache to one version of each package.
    Prune,
    /// Give the repository lock up.
    ReleaseLock,
    /// The operation is over.
    Finish,
}

pub struct SessionView {
    pub op: Operation,
    pub targets: Seq<String>,
    pub edit: bool,
    pub bind: Option<String>,
    pub phase: Phase,
    pub index: int,
    pub known: Seq<String>,
    pub queries: Seq<DependencyQuery>,
    pub installed: Seq<String>,
    pub removed: Seq<String>,
    pub not_found: Seq<String>,
    pub lock_held: bool,
    pub error: Option<AurtoError>,
}

pub struct Session {
    op: Operation,
    targets: Vec<String>,
    edit: bool,
    bind: Option<String>,
    phase: Phase,
    index: usize,
    known: Vec<String>,
    queries: Vec<DependencyQuery>,
    installed: Vec<String>,
    removed: Vec<String>,
    not_found: Vec<String>,
    lock_held: bool,
    error: Option<AurtoError>,
}

pub open spec fn deep(s: Seq<String>) -> Seq<Seq<char>> {
    Seq::new(s.len(), |i: int| s[i]@)
}

pub open spec fn bind_view(b: Option<String>) -> Option<Seq<char>> {
    match b {
        Some(d) => Some(d@),
        None => None,
    }
}

pub open spec fn tool_error(tool: Tool, e: Event) -> AurtoError {
    if e is NotLaunched {
        AurtoError::ProcessSpawn { tool }
    } else {
        AurtoError::ProcessExit { tool }
    }
}

/// Actions that change the repository or the system's view of it.
pub open spec fn mutates(a: Action) -> bool {
    a is Build || a is RemoveEntry || a is DeleteCacheFiles || a is AddEntries || a is CopyToCache
        || a is Sync || a is Prune
}

pub open spec fn initial(op: Operation, targets: Seq<String>, edit: bool, bind: Option<String>) -> SessionView {
    SessionView {
        op,
        targets,
        edit,
        bind,
        phase: Phase::Start,
        index: 0,
        known: Seq::empty(),
        queries: Seq::empty(),
        installed: Seq::empty(),
        removed: Seq::empty(),
        not_found: Seq::empty(),
        lock_held: false,
        error: None,
    }
}

/// A failed step: record `err` and give the lock up.
pub open spec fn fails(s: SessionView, t: SessionView, a: Action, err: AurtoError) -> bool {
    t == SessionView { phase: Phase::Releasing, error: Some(err), ..s } && a == Action::ReleaseLock
}

/// Move on from the removal target at `s.index`.
pub open spec fn next_removal(s: SessionView, t: SessionView, a: Action) -> bool {
    if s.index + 1 < s.targets.len() {
        t == SessionView { phase: Phase::Removing, index: s.index + 1, ..s } && a == Action::RemoveEntry(
            s.targets[s.index + 1],
        )
    } else {
        t == SessionView { phase: Phase::SyncingAfter, ..s } && a == Action::Sync
    }
}

/// Copy the archive at position `i` into the cache.
pub open spec fn copies(s: SessionView, i: int, t: SessionView, a: Action) -> bool {
    t == SessionView { phase: Phase::Copying, index: i, ..s } && a is CopyToCache
        && a->CopyToCache_from == s.targets[i] && a->CopyToCache_name@ == file_name_of(s.targets[i]@)
}

/// Start the build of `installed`.
pub open spec fn builds(s: SessionView, installed: Seq<String>, upgrades: bool, t: SessionView, a: Action) -> bool {
    t == SessionView { phase: Phase::Building, installed, ..s } && a is Build && deep(a->Build_0@)
        == build_args_of(deep(installed), upgrades, s.edit, bind_view(s.bind))
}

/// The resolution of the queries in `s` has been built into the build of an add.
pub open spec fn builds_resolution(s: SessionView, t: SessionView, a: Action) -> bool {
    exists|deps: Seq<String>, installed: Seq<String>|
        is_resolution(deep(deps), s.queries, deep(s.known)) && deep(installed) == targets_to_build(
            deep(s.targets),
            deep(deps),
        ) && builds(s, installed, false, t, a)
}

/// One step of a session: in state `s`, told `e`, it moves to `t` and asks for `a`.
pub open spec fn step(s: SessionView, e: Event, t: SessionView, a: Action) -> bool {
    match s.phase {
        Phase::Start => if s.op == Operation::AddPkg && exists|k: int|
            0 <= k < s.targets.len() && !is_package_archive_name(#[trigger] s.targets[k]@) {
            exists|k: int|
                0 <= k < s.targets.len() && !is_package_archive_name(s.targets[k]@) && (forall|j: int|
                    0 <= j < k ==> is_package_archive_name(#[trigger] s.targets[j]@)) && t == SessionView {
                    phase: Phase::Done,
                    error: Some(AurtoError::InvalidPackageFile { path: s.targets[k] }),
                    ..s
                } && a == Action::Finish
        } else {
            t == SessionView { phase: Phase::Locking, ..s } && a == Action::AcquireLock
        },
        Phase::Locking => if e is Succeeded {
            let u = SessionView { lock_held: true, ..s };
            match s.op {
                Operation::Add => t == SessionView { phase: Phase::Listing, ..u } && a
                    == Action::ListKnownPackages,
                Operation::Remove => if s.targets.len() > 0 {
                    t == SessionView { phase: Phase::Removing, index: 0, ..u } && a
                        == Action::RemoveEntry(s.targets[0])
                } else {
                    t == SessionView { phase: Phase::SyncingAfter, ..u } && a == Action::Sync
                },
                Operation::AddPkg => t == SessionView { phase: Phase::Adding, ..u } && a is AddEntries
                    && a->AddEntries_0@ == s.targets,
                Operation::Update => t == SessionView { phase: Phase::SyncingBefore, ..u } && a
                    == Action::Sync,
            }
        } else {
            t == SessionView { phase: Phase::Done, error: Some(tool_error(Tool::Lock, e)), ..s } && a
                == Action::Finish
        },
        Phase::Listing => if e is Output {
            exists|known: Seq<String>|
                deep(known) == listed_names(e->Output_0@) && {
                    let u = SessionView { known, ..s };
                    if s.targets.len() > 0 {
                        t == SessionView { phase: Phase::Querying, ..u } && a == Action::QueryDependencies(
                            s.targets[0],
                        )
                    } else {
                        builds_resolution(u, t, a)
                    }
                }
        } else {
            fails(s, t, a, tool_error(Tool::PackageList, e))
        },
        Phase::Querying => {
            let n: int = s.queries.len() as int;
            if e is Output {
                let u = SessionView {
                    queries: s.queries.push(
                        DependencyQuery { package: s.targets[n], output: Some(e->Output_0) },
                    ),
                    ..s
                };
                if n + 1 < s.targets.len() {
                    t == u && a == Action::QueryDependencies(s.targets[n + 1])
                } else {
                    builds_resolution(u, t, a)
                }
            } else {
                fails(s, t, a, AurtoError::DependencyQuery { package: s.targets[n] })
            }
        },
        Phase::SyncingBefore => if e is Succeeded {
            if s.targets.len() == 0 {
                builds(s, Seq::empty(), true, t, a)
            } else {
                builds(s, s.targets, false, t, a)
            }
        } else {
            fails(s, t, a, AurtoError::SyncFailure)
        },
        Phase::Building => if e is Succeeded {
            t == SessionView { phase: Phase::SyncingAfter, ..s } && a == Action::Sync
        } else {
            fails(s, t, a, AurtoError::BuildFailure)
        },
        Phase::SyncingAfter => if e is Succeeded {
            if s.op == Operation::Update {
                t == SessionView { phase: Phase::Pruning, ..s } && a == Action::Prune
            } else {
                t == SessionView { phase: Phase::Releasing, ..s } && a == Action::ReleaseLock
            }
        } else {
            fails(s, t, a, AurtoError::SyncFailure)
        },
        Phase::Pruning => if e is Succeeded {
            t == SessionView { phase: Phase::Releasing, ..s } && a == Action::ReleaseLock
        } else {
            fails(s, t, a, AurtoError::PruneFailure)
        },
        Phase::Removing => if e is Output {
            if removal_outcome_of(e->Output_0@) == RemovalOutcome::NotFound {
                next_removal(
                    SessionView { not_found: s.not_found.push(s.targets[s.index]), ..s },
                    t,
                    a,
                )
            } else {
                t == SessionView { phase: Phase::ScanningCache, ..s } && a == Action::ListCache
            }
        } else {
            fails(s, t, a, tool_error(Tool::ArchiveRemove, e))
        },
        Phase::ScanningCache => {
            let m = if e is Files {
                cached_archives_of(deep(e->Files_0@), s.targets[s.index]@)
            } else {
                Seq::empty()
            };
            if m.len() > 0 {
                t == SessionView { phase: Phase::Deleting, ..s } && a is DeleteCacheFiles && deep(
                    a->DeleteCacheFiles_0@,
                ) == m
            } else {
                next_removal(s, t, a)
            }
        },
        Phase::Deleting => if e is Files && e->Files_0@.len() > 0 {
            next_removal(SessionView { removed: s.removed.push(s.targets[s.index]), ..s }, t, a)
        } else {
            next_removal(s, t, a)
        },
        Phase::Adding => if e is Succeeded {
            if s.targets.len() > 0 {
                copies(s, 0, t, a)
            } else {
                t == SessionView { phase: Phase::SyncingAfter, ..s } && a == Action::Sync
            }
        } else {
            fails(s, t, a, tool_error(Tool::ArchiveAdd, e))
        },
        Phase::Copying => if e is Succeeded {
            if s.index + 1 < s.targets.len() {
                copies(s, s.index + 1, t, a)
            } else {
                t == SessionView { phase: Phase::SyncingAfter, ..s } && a == Action::Sync
            }
        } else {
            fails(s, t, a, tool_error(Tool::Copy, e))
        },
        Phase::Releasing => t == SessionView { phase: Phase::Done, lock_held: false, ..s } && a
            == Action::Finish,
        Phase::Done => t == s && a == Action::Finish,
    }
}

pub open spec fn holds_lock_in(p: Phase) -> bool {
    !(p == Phase::Start || p == Phase::Locking || p == Phase::Done)
}

/// What holds of every state a session passes through.
pub open spec fn well_formed(s: SessionView) -> bool {
    &&& 0 <= s.index
    &&& s.lock_held == holds_lock_in(s.phase)
    &&& (s.phase == Phase::Start || s.phase == Phase::Locking || s.phase == Phase::Listing)
        ==> s.queries.len() == 0
    &&& s.phase == Phase::Querying ==> s.queries.len() < s.targets.len()
    &&& forall|j: int| 0 <= j < s.queries.len() ==> (#[trigger] s.queries[j]).output is Some
    &&& (s.phase == Phase::Removing || s.phase == Phase::ScanningCache || s.phase == Phase::Deleting
        || s.phase == Phase::Copying) ==> s.index < s.targets.len()
    &&& s.error is Some ==> (s.phase == Phase::Releasing || s.phase == Phase::Done)
}

/// Every step keeps a session well formed; a mutating step happens only while
/// the lock is held, no mutating step follows a failure, and a session
/// finishes only with the lock given up.
pub proof fn lemma_step_preserves(s: SessionView, e: Event, t: SessionView, a: Action)
    requires
        well_formed(s),
        step(s, e, t, a),
    ensures
        well_formed(t),
        mutates(a) ==> t.lock_held,
        t.error is Some ==> !mutates(a),
        a == Action::Finish ==> !t.lock_held,
{
    match s.phase {
        Phase::Querying => {
            let n: int = s.queries.len() as int;
            if e is Output {
                let q = s.queries.push(
                    DependencyQuery { package: s.targets[n], output: Some(e->Output_0) },
                );
                assert forall|j: int| 0 <= j < q.len() implies (#[trigger] q[j]).output is Some by {
                    if j < n {
                        assert(q[j] == s.queries[j]);
                    }
                }
            }
        },
        _ => {},
    }
}

impl View for Session {
    type V = SessionView;

    closed spec fn view(&self) -> SessionView {
        SessionView {
            op: self.op,
            targets: self.targets@,
            edit: self.edit,
            bind: self.bind,
            phase: self.phase,
            index: self.index as int,
            known: self.known@,
            queries: self.queries@,
            installed: self.installed@,
            removed: self.removed@,
            not_found: self.not_found@,
            lock_held: self.lock_held,
            error: self.error,
        }
    }
}

proof fn lemma_deep(v: &Vec<String>)
    ensures
        deep(v@) == v.deep_view(),
{
    assert(deep(v@) =~= v.deep_view());
}

fn tool_error_of(tool: Tool, e: &Event) -> (r: AurtoError)
    ensures
        r == tool_error(tool, *e),
{
    match e {
        Event::NotLaunched => AurtoError::ProcessSpawn { tool },
        _ => AurtoError::ProcessExit { tool },
    }
}

impl Session {
    /// A session for `op` on `targets` (package names, or archive paths for
    /// `AddPkg`). Builds show the build files for editing only when `edit` is
    /// set, and mount `bind` read-only in the build root when given.
    pub fn new(op: Operation, targets: Vec<String>, edit: bool, bind: Option<String>) -> (r: Session)
        ensures
            r@ == initial(op, targets@, edit, bind),
            well_formed(r@),
    {
        Session {
            op,
            targets,
            edit,
            bind,
            phase: Phase::Start,
            index: 0,
            known: Vec::new(),
            queries: Vec::new(),
            installed: Vec::new(),
            removed: Vec::new(),
            not_found: Vec::new(),
            lock_held: false,
            error: None,
        }
    }

    pub fn phase(&self) -> (r: Phase)
        ensures
            r == self@.phase,
    {
        self.phase
    }

    /// Why the operation failed, once it has.
    pub fn error(&self) -> (r: &Option<AurtoError>)
        ensures
            *r == self@.error,
    {
        &self.error
    }

    /// The packages given to the build.
    pub fn installed(&self) -> (r: &Vec<String>)
        ensures
            r@ == self@.installed,
    {
        &self.installed
    }

    /// The removal targets whose cached archives were deleted.
    pub fn removed(&self) -> (r: &Vec<String>)
        ensures
            r@ == self@.removed,
    {
        &self.removed
    }

    /// The removal targets that the database did not hold.
    pub fn not_found(&self) -> (r: &Vec<String>)
        ensures
            r@ == self@.not_found,
    {
        &self.not_found
    }

    fn fail(&mut self, err: AurtoError) -> (a: Action)
        ensures
            fails(old(self)@, final(self)@, a, err),
    {
        self.phase = Phase::Releasing;
        self.error = Some(err);
        Action::ReleaseLock
    }

    fn next_removal(&mut self) -> (a: Action)
        requires
            old(self).index < old(self).targets.len(),
        ensures
            next_removal(old(self)@, final(self)@, a),
    {
        if self.index + 1 < self.targets.len() {
            self.phase = Phase::Removing;
            self.index = self.index + 1;
            Action::RemoveEntry(self.targets[self.index].clone())
        } else {
            self.phase = Phase::SyncingAfter;
            Action::Sync
        }
    }

    fn copy_step(&mut self, i: usize) -> (a: Action)
        requires
            i < old(self).targets.len(),
        ensures
            copies(old(self)@, i as int, final(self)@, a),
    {
        self.phase = Phase::Copying;
        self.index = i;
        let from = self.targets[i].clone();
        let name = file_name(from.as_str());
        Action::CopyToCache { from, name }
    }

    fn build_step(&mut self, installed: Vec<String>, upgrades: bool) -> (a: Action)
        ensures
            builds(old(self)@, installed@, upgrades, final(self)@, a),
    {
        let args = build_args(&installed, upgrades, self.edit, &self.bind);
        proof {
            lemma_deep(&installed);
            lemma_deep(&args);
        }
        self.phase = Phase::Building;
        self.installed = installed;
        Action::Build(args)
    }

    fn resolve_and_build(&mut self) -> (a: Action)
        requires
            forall|j: int| 0 <= j < old(self).queries.len() ==> (#[trigger] old(self).queries@[j]).output is Some,
        ensures
            builds_resolution(old(self)@, final(self)@, a),
    {
        proof {
            lemma_deep(&self.known);
            lemma_deep(&self.targets);
        }
        match resolve(&self.queries, &self.known) {
            Ok(deps) => {
                let installed = build_targets(&self.targets, &deps);
                proof {
                    lemma_deep(&deps);
                    lemma_deep(&installed);
                }
                self.build_step(installed, false)
            },
            Err(e) => {
                assert(false);
                self.fail(e)
            },
        }
    }

    /// Takes in how the last step went and says which step comes next.
    pub fn advance(&mut self, event: Event) -> (a: Action)
        requires
            well_formed(old(self)@),
        ensures
            well_formed(final(self)@),
            step(old(self)@, event, final(self)@, a),
            mutates(a) ==> final(self)@.lock_held,
            final(self)@.error is Some ==> !mutates(a),
            a == Action::Finish ==> !final(self)@.lock_held,
    {
        let ghost s0 = self@;
        let a = self.advance_step(event);
        proof {
            lemma_step_preserves(s0, event, self@, a);
        }
        a
    }

    fn advance_step(&mut self, event: Event) -> (a: Action)
        requires
            well_formed(old(self)@),
        ensures
            step(old(self)@, event, final(self)@, a),
    {
        match self.phase {
            Phase::Start => {
                if self.op == Operation::AddPkg {
                    match validate_package_files(&self.targets) {
                        Err(err) => {
                            self.phase = Phase::Done;
                            self.error = Some(err);
                            return Action::Finish;
                        },
                        Ok(()) => {},
                    }
                }
                self.phase = Phase::Locking;
                Action::AcquireLock
            },
            Phase::Locking => match event {
                Event::Succeeded => {
                    self.lock_held = true;
                    match self.op {
                        Operation::Add => {
                            self.phase = Phase::Listing;
                            Action::ListKnownPackages
                        },
                        Operation::Remove => {
                            if self.targets.len() > 0 {
                                self.phase = Phase::Removing;
                                self.index = 0;
                                Action::RemoveEntry(self.targets[0].clone())
                            } else {
                                self.phase = Phase::SyncingAfter;
                                Action::Sync
                            }
                        },
                        Operation::AddPkg => {
                            self.phase = Phase::Adding;
                            let files = self.targets.clone();
                            assert(files@ =~= self.targets@);
                            Action::AddEntries(files)
                        },
                        Operation::Update => {
                            self.phase = Phase::SyncingBefore;
                            Action::Sync
                        },
                    }
                },
                other => {
                    let err = tool_error_of(Tool::Lock, &other);
                    self.phase = Phase::Done;
                    self.error = Some(err);
                    Action::Finish
                },
            },
            Phase::Listing => match event {
                Event::Output(text) => {
                    self.known = parse_package_list(text.as_str());
                    proof {
                        lemma_deep(&self.known);
                    }
                    if self.targets.len() > 0 {
                        self.phase = Phase::Querying;
                        Action::QueryDependencies(self.targets[0].clone())
                    } else {
                        self.resolve_and_build()
                    }
                },
                other => {
                    let err = tool_error_of(Tool::PackageList, &other);
                    self.fail(err)
                },
            },
            Phase::Querying => {
                let n: usize = self.queries.len();
                match event {
                    Event::Output(text) => {
                        assert(n < self.targets.len());
                        let package = self.targets[n].clone();
                        self.queries.push(DependencyQuery { package, output: Some(text) });
                        if n + 1 < self.targets.len() {
                            Action::QueryDependencies(self.targets[n + 1].clone())
                        } else {
                            self.resolve_and_build()
                        }
                    },
                    _ => {
                        let package = self.targets[n].clone();
                        self.fail(AurtoError::DependencyQuery { package })
                    },
                }
            },
            Phase::SyncingBefore => match event {
                Event::Succeeded => {
                    if self.targets.len() == 0 {
                        self.build_step(Vec::new(), true)
                    } else {
                        let targets = self.targets.clone();
                        assert(targets@ =~= self.targets@);
                        self.build_step(targets, false)
                    }
                },
                _ => self.fail(AurtoError::SyncFailure),
            },
            Phase::Building => match event {
                Event::Succeeded => {
                    self.phase = Phase::SyncingAfter;
                    Action::Sync
                },
                _ => self.fail(AurtoError::BuildFailure),
            },
            Phase::SyncingAfter => match event {
                Event::Succeeded => {
                    if self.op == Operation::Update {
                        self.phase = Phase::Pruning;
                        Action::Prune
                    } else {
                        self.phase = Phase::Releasing;
                        Action::ReleaseLock
                    }
                },
                _ => self.fail(AurtoError::SyncFailure),
            },
            Phase::Pruning => match event {
                Event::Succeeded => {
                    self.phase = Phase::Releasing;
                    Action::ReleaseLock
                },
                _ => self.fail(AurtoError::PruneFailure),
            },
            Phase::Removing => match event {
                Event::Output(text) => match detect_removal_outcome(text.as_str()) {
                    RemovalOutcome::NotFound => {
                        let name = self.targets[self.index].clone();
                        self.not_found.push(name);
                        self.next_removal()
                    },
                    RemovalOutcome::Removed => {
                        self.phase = Phase::ScanningCache;
                        Action::ListCache
                    },
                },
                other => {
                    let err = tool_error_of(Tool::ArchiveRemove, &other);
                    self.fail(err)
                },
            },
            Phase::ScanningCache => {
                let matches = match event {
                    Event::Files(files) => {
                        let m = matching_cache_files(&files, &self.targets[self.index]);
                        proof {
                            lemma_deep(&files);
                        }
                        m
                    },
                    _ => Vec::new(),
                };
                proof {
                    lemma_deep(&matches);
                }
                if matches.len() > 0 {
                    self.phase = Phase::Deleting;
                    Action::DeleteCacheFiles(matches)
                } else {
                    self.next_removal()
                }
            },
            Phase::Deleting => {
                let deleted_any = match &event {
                    Event::Files(files) => files.len() > 0,
                    _ => false,
                };
                if deleted_any {
                    let name = self.targets[self.index].clone();
                    self.removed.push(name);
                }
                self.next_removal()
            },
            Phase::Adding => match event {
                Event::Succeeded => {
                    if self.targets.len() > 0 {
                        self.copy_step(0)
                    } else {
                        self.phase = Phase::SyncingAfter;
                        Action::Sync
                    }
                },
                other => {
                    let err = tool_error_of(Tool::ArchiveAdd, &other);
                    self.fail(err)
                },
            },
            Phase::Copying => match event {
                Event::Succeeded => {
                    assert(self.index < self.targets.len());
                    if self.index + 1 < self.targets.len() {
                        self.copy_step(self.index + 1)
                    } else {
                        self.phase = Phase::SyncingAfter;
                        Action::Sync
                    }
                },
                other => {
                    let err = tool_error_of(Tool::Copy, &other);
                    self.fail(err)
                },
            },
            Phase::Releasing => {
                self.phase = Phase::Done;
                self.lock_held = false;
                Action::Finish
            },
            Phase::Done => Action::Finish,
        }
    }
}

/// A removal target the database does not hold is reported as not found, and
/// none of its cached files is deleted.
pub proof fn lemma_absent_package_deletes_nothing(s: SessionView, e: Event, t: SessionView, a: Action)
    requires
        well_formed(s),
        s.phase == Phase::Removing,
        e is Output,
        removal_outcome_of(e->Output_0@) == RemovalOutcome::NotFound,
        step(s, e, t, a),
    ensures
        t.not_found == s.not_found.push(s.targets[s.index]),
        t.removed == s.removed,
        !(a is DeleteCacheFiles),
        t.phase == Phase::Removing || t.phase == Phase::SyncingAfter,
{
}

/// For a target the database held, the deletion asked for covers exactly the
/// listed cache files whose name starts with the package name and carries the
/// archive marker.
pub proof fn lemma_present_package_deletes_its_archives(
    s: SessionView,
    files: Vec<String>,
    t: SessionView,
    a: Action,
    f: Seq<char>,
)
    requires
        well_formed(s),
        s.phase == Phase::ScanningCache,
        step(s, Event::Files(files), t, a),
    ensures
        (a is DeleteCacheFiles && deep(a->DeleteCacheFiles_0@).contains(f)) <==> (deep(files@).contains(f)
            && crate::plan::is_cached_archive_of(f, s.targets[s.index]@)),
{
    let pkg = s.targets[s.index]@;
    let pred = |x: Seq<char>| crate::plan::is_cached_archive_of(x, pkg);
    let m = cached_archives_of(deep(files@), pkg);
    assert(m == deep(files@).filter(pred));
    if m.contains(f) {
        deep(files@).lemma_filter_contains_rev(pred, f);
        let k = choose|k: int| 0 <= k < m.len() && m[k] == f;
        deep(files@).lemma_filter_pred(pred, k);
    }
    if deep(files@).contains(f) && pred(f) {
        let k = choose|k: int| 0 <= k < deep(files@).len() && deep(files@)[k] == f;
        deep(files@).lemma_filter_contains(pred, k);
    }
}

/// An update with no explicit targets, where every step succeeds (nothing is
/// outdated, so the build has nothing to do), still prunes the cache and ends
/// without error.
pub proof fn lemma_update_without_targets_prunes(
    states: Seq<SessionView>,
    actions: Seq<Action>,
    edit: bool,
    bind: Option<String>,
)
    requires
        states.len() == 8,
        actions.len() == 7,
        states[0] == initial(Operation::Update, Seq::empty(), edit, bind),
        forall|k: int| 0 <= k < 7 ==> #[trigger] step(states[k], Event::Succeeded, states[k + 1], actions[k]),
    ensures
        actions[0] == Action::AcquireLock,
        actions[1] == Action::Sync,
        actions[2] is Build && deep(actions[2]->Build_0@) == build_args_of(
            Seq::empty(),
            true,
            edit,
            bind_view(bind),
        ),
        actions[3] == Action::Sync,
        actions[4] == Action::Prune,
        actions[5] == Action::ReleaseLock,
        actions[6] == Action::Finish,
        states[7].phase == Phase::Done,
        states[7].error is None,
        !states[7].lock_held,
{
    assert(step(states[0], Event::Succeeded, states[(0 as int) + 1], actions[0]));
    assert(step(states[1], Event::Succeeded, states[(1 as int) + 1], actions[1]));
    assert(step(states[2], Event::Succeeded, states[(2 as int) + 1], actions[2]));
    assert(step(states[3], Event::Succeeded, states[(3 as int) + 1], actions[3]));
    assert(step(states[4], Event::Succeeded, states[(4 as int) + 1], actions[4]));
    assert(step(states[5], Event::Succeeded, states[(5 as int) + 1], actions[5]));
    assert(step(states[6], Event::Succeeded, states[(6 as int) + 1], actions[6]));
}

} // verus!
