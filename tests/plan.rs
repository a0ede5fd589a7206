use aurto::plan::{build_args, build_targets, detect_removal_outcome, matching_cache_files, RemovalOutcome};

fn names(v: &[&str]) -> Vec<String> {
    v.iter().map(|s| s.to_string()).collect()
}

#[test]
fn build_args_without_edit_and_with_bind() {
    let r = build_args(&names(&["foo", "bar"]), false, false, &Some("/srv/src".to_string()));
    assert_eq!(
        r,
        names(&[
            "sync",
            "--chroot",
            "--database=aurto",
            "--makepkg-conf=/etc/aurto/makepkg-chroot.conf",
            "--no-view",
            "--no-confirm",
            "--bind=/srv/src",
            "foo",
            "bar",
        ])
    );
}

#[test]
fn build_args_for_upgrades_with_edit() {
    let r = build_args(&Vec::new(), true, true, &None);
    assert_eq!(
        r,
        names(&[
            "sync",
            "--chroot",
            "--database=aurto",
            "--makepkg-conf=/etc/aurto/makepkg-chroot.conf",
            "--upgrades",
        ])
    );
}

#[test]
fn build_targets_adds_unrequested_dependencies() {
    let r = build_targets(&names(&["app", "tool"]), &names(&["app", "libx", "tool", "liby"]));
    assert_eq!(r, names(&["app", "tool", "libx", "liby"]));
}

#[test]
fn removal_outcome_by_error_marker() {
    assert_eq!(
        detect_removal_outcome("==> ERROR: Package 'foo' not found in database"),
        RemovalOutcome::NotFound
    );
    assert_eq!(detect_removal_outcome("==> Removing package 'foo'\n"), RemovalOutcome::Removed);
    assert_eq!(detect_removal_outcome(""), RemovalOutcome::Removed);
}

#[test]
fn cache_files_matching_package() {
    let files = names(&[
        "foo-1.0-1-x86_64.pkg.tar.zst",
        "foo-bar-2.0-1-any.pkg.tar.zst",
        "foo.notes",
        "barfoo-1-1-any.pkg.tar.zst",
        "aurto.db.tar",
        "foo-0.9-1-x86_64.pkg.tar.zst.sig",
    ]);
    let r = matching_cache_files(&files, &"foo".to_string());
    assert_eq!(
        r,
        names(&[
            "foo-1.0-1-x86_64.pkg.tar.zst",
            "foo-bar-2.0-1-any.pkg.tar.zst",
            "foo-0.9-1-x86_64.pkg.tar.zst.sig",
        ])
    );
}
