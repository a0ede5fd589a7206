use aurto::error::{AurtoError, Tool};
use aurto::session::{Action, Event, Operation, Phase, Session};

fn names(v: &[&str]) -> Vec<String> {
    v.iter().map(|s| s.to_string()).collect()
}

fn base_args() -> Vec<String> {
    names(&["sync", "--chroot", "--database=aurto", "--makepkg-conf=/etc/aurto/makepkg-chroot.conf"])
}

#[test]
fn add_runs_list_query_build_sync_under_lock() {
    let mut s = Session::new(Operation::Add, names(&["foo", "qux"]), false, None);
    assert_eq!(s.advance(Event::Succeeded), Action::AcquireLock);
    assert_eq!(s.advance(Event::Succeeded), Action::ListKnownPackages);
    assert_eq!(
        s.advance(Event::Output("foo\nbar\nbaz\n".to_string())),
        Action::QueryDependencies("foo".to_string())
    );
    assert_eq!(
        s.advance(Event::Output("foo\tbar\n".to_string())),
        Action::QueryDependencies("qux".to_string())
    );
    let mut args = base_args();
    args.extend(names(&["--no-view", "--no-confirm", "foo", "qux", "bar", "baz"]));
    assert_eq!(s.advance(Event::Output("qux\tbar\nqux\tbaz\n".to_string())), Action::Build(args));
    assert_eq!(s.installed(), &names(&["foo", "qux", "bar", "baz"]));
    assert_eq!(s.advance(Event::Succeeded), Action::Sync);
    assert_eq!(s.advance(Event::Succeeded), Action::ReleaseLock);
    assert_eq!(s.advance(Event::Succeeded), Action::Finish);
    assert_eq!(s.phase(), Phase::Done);
    assert_eq!(s.error(), &None);
}

#[test]
fn add_build_failure_skips_sync() {
    let mut s = Session::new(Operation::Add, names(&["foo"]), true, Some("/srv".to_string()));
    s.advance(Event::Succeeded);
    s.advance(Event::Succeeded);
    s.advance(Event::Output("foo\n".to_string()));
    let mut args = base_args();
    args.extend(names(&["--bind=/srv", "foo"]));
    assert_eq!(s.advance(Event::Output("foo\tglibc\n".to_string())), Action::Build(args));
    assert_eq!(s.advance(Event::Failed), Action::ReleaseLock);
    assert_eq!(s.advance(Event::Succeeded), Action::Finish);
    assert_eq!(s.error(), &Some(AurtoError::BuildFailure));
}

#[test]
fn add_dependency_query_failure_builds_nothing() {
    let mut s = Session::new(Operation::Add, names(&["foo", "bar"]), false, None);
    s.advance(Event::Succeeded);
    s.advance(Event::Succeeded);
    s.advance(Event::Output("foo\nbar\n".to_string()));
    assert_eq!(s.advance(Event::NotLaunched), Action::ReleaseLock);
    assert_eq!(s.advance(Event::Succeeded), Action::Finish);
    assert_eq!(s.error(), &Some(AurtoError::DependencyQuery { package: "foo".to_string() }));
}

#[test]
fn add_sync_failure_is_reported() {
    let mut s = Session::new(Operation::Add, names(&["foo"]), false, None);
    s.advance(Event::Succeeded);
    s.advance(Event::Succeeded);
    s.advance(Event::Output("foo\n".to_string()));
    s.advance(Event::Output(String::new()));
    assert_eq!(s.advance(Event::Succeeded), Action::Sync);
    assert_eq!(s.advance(Event::Failed), Action::ReleaseLock);
    assert_eq!(s.error(), &Some(AurtoError::SyncFailure));
}

#[test]
fn listing_failure_stops_add() {
    let mut s = Session::new(Operation::Add, names(&["foo"]), false, None);
    s.advance(Event::Succeeded);
    s.advance(Event::Succeeded);
    assert_eq!(s.advance(Event::NotLaunched), Action::ReleaseLock);
    assert_eq!(s.error(), &Some(AurtoError::ProcessSpawn { tool: Tool::PackageList }));
}

#[test]
fn lock_failure_finishes_without_release() {
    let mut s = Session::new(Operation::Remove, names(&["foo"]), false, None);
    assert_eq!(s.advance(Event::Succeeded), Action::AcquireLock);
    assert_eq!(s.advance(Event::Failed), Action::Finish);
    assert_eq!(s.error(), &Some(AurtoError::ProcessExit { tool: Tool::Lock }));
}

#[test]
fn remove_absent_package_is_not_found_and_deletes_nothing() {
    let mut s = Session::new(Operation::Remove, names(&["ghost"]), false, None);
    s.advance(Event::Succeeded);
    assert_eq!(s.advance(Event::Succeeded), Action::RemoveEntry("ghost".to_string()));
    assert_eq!(
        s.advance(Event::Output("==> ERROR: Package matching 'ghost' not found.".to_string())),
        Action::Sync
    );
    assert_eq!(s.not_found(), &names(&["ghost"]));
    assert!(s.removed().is_empty());
    assert_eq!(s.advance(Event::Succeeded), Action::ReleaseLock);
    assert_eq!(s.advance(Event::Succeeded), Action::Finish);
    assert_eq!(s.error(), &None);
}

#[test]
fn remove_present_package_deletes_its_archives() {
    let mut s = Session::new(Operation::Remove, names(&["foo", "bar"]), false, None);
    s.advance(Event::Succeeded);
    assert_eq!(s.advance(Event::Succeeded), Action::RemoveEntry("foo".to_string()));
    assert_eq!(s.advance(Event::Output("==> Removing 'foo'".to_string())), Action::ListCache);
    let listing = names(&["foo-1-1-any.pkg.tar.zst", "foo-2-1-any.pkg.tar.zst", "bar-1-1-any.pkg.tar.zst", "foo.txt"]);
    assert_eq!(
        s.advance(Event::Files(listing)),
        Action::DeleteCacheFiles(names(&["foo-1-1-any.pkg.tar.zst", "foo-2-1-any.pkg.tar.zst"]))
    );
    assert_eq!(
        s.advance(Event::Files(names(&["foo-1-1-any.pkg.tar.zst", "foo-2-1-any.pkg.tar.zst"]))),
        Action::RemoveEntry("bar".to_string())
    );
    assert_eq!(s.removed(), &names(&["foo"]));
    assert_eq!(s.advance(Event::Output(String::new())), Action::ListCache);
    assert_eq!(s.advance(Event::Failed), Action::Sync);
    assert_eq!(s.removed(), &names(&["foo"]));
    assert_eq!(s.advance(Event::Succeeded), Action::ReleaseLock);
}

#[test]
fn addpkg_valid_file_is_added_and_copied() {
    let path = "/tmp/out/mytool-1.0-1-x86_64.pkg.tar.zst".to_string();
    let mut s = Session::new(Operation::AddPkg, vec![path.clone()], false, None);
    assert_eq!(s.advance(Event::Succeeded), Action::AcquireLock);
    assert_eq!(s.advance(Event::Succeeded), Action::AddEntries(vec![path.clone()]));
    assert_eq!(
        s.advance(Event::Succeeded),
        Action::CopyToCache { from: path, name: "mytool-1.0-1-x86_64.pkg.tar.zst".to_string() }
    );
    assert_eq!(s.advance(Event::Succeeded), Action::Sync);
    assert_eq!(s.advance(Event::Succeeded), Action::ReleaseLock);
    assert_eq!(s.advance(Event::Succeeded), Action::Finish);
    assert_eq!(s.error(), &None);
}

#[test]
fn addpkg_invalid_file_fails_before_any_step() {
    let mut s = Session::new(Operation::AddPkg, names(&["mytool.tar.gz"]), false, None);
    assert_eq!(s.advance(Event::Succeeded), Action::Finish);
    assert_eq!(s.error(), &Some(AurtoError::InvalidPackageFile { path: "mytool.tar.gz".to_string() }));
}

#[test]
fn update_without_targets_still_prunes() {
    let mut s = Session::new(Operation::Update, Vec::new(), false, None);
    assert_eq!(s.advance(Event::Succeeded), Action::AcquireLock);
    assert_eq!(s.advance(Event::Succeeded), Action::Sync);
    let mut args = base_args();
    args.extend(names(&["--upgrades", "--no-view", "--no-confirm"]));
    assert_eq!(s.advance(Event::Succeeded), Action::Build(args));
    assert_eq!(s.advance(Event::Succeeded), Action::Sync);
    assert_eq!(s.advance(Event::Succeeded), Action::Prune);
    assert_eq!(s.advance(Event::Succeeded), Action::ReleaseLock);
    assert_eq!(s.advance(Event::Succeeded), Action::Finish);
    assert_eq!(s.error(), &None);
}

#[test]
fn update_with_targets_rebuilds_them_and_reports_prune_failure() {
    let mut s = Session::new(Operation::Update, names(&["foo"]), true, None);
    s.advance(Event::Succeeded);
    s.advance(Event::Succeeded);
    let mut args = base_args();
    args.extend(names(&["foo"]));
    assert_eq!(s.advance(Event::Succeeded), Action::Build(args));
    assert_eq!(s.advance(Event::Succeeded), Action::Sync);
    assert_eq!(s.advance(Event::Succeeded), Action::Prune);
    assert_eq!(s.advance(Event::Failed), Action::ReleaseLock);
    assert_eq!(s.error(), &Some(AurtoError::PruneFailure));
}

#[test]
fn finished_session_stays_finished() {
    let mut s = Session::new(Operation::Update, Vec::new(), false, None);
    s.advance(Event::Succeeded);
    s.advance(Event::Failed);
    assert_eq!(s.advance(Event::Succeeded), Action::Finish);
    assert_eq!(s.phase(), Phase::Done);
}
