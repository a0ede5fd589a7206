use aurto::error::AurtoError;
use aurto::package_file::{file_name, is_valid_pkg_file, validate_package_files};

#[test]
fn archive_name_is_valid() {
    assert_eq!(is_valid_pkg_file("mytool-1.0-1-x86_64.pkg.tar.zst".to_string()), Ok(()));
}

#[test]
fn plain_tarball_is_invalid() {
    assert_eq!(
        is_valid_pkg_file("mytool.tar.gz".to_string()),
        Err("pkg file does not end with typical format `.pkg.tar".to_string())
    );
}

#[test]
fn validation_reports_first_invalid_path() {
    let paths = vec![
        "a-1-1-any.pkg.tar.zst".to_string(),
        "mytool.tar.gz".to_string(),
        "other.zip".to_string(),
    ];
    assert_eq!(
        validate_package_files(&paths),
        Err(AurtoError::InvalidPackageFile { path: "mytool.tar.gz".to_string() })
    );
    assert_eq!(validate_package_files(&vec!["b-2-1-x86_64.pkg.tar.xz".to_string()]), Ok(()));
}

#[test]
fn file_name_is_last_component() {
    assert_eq!(file_name("/tmp/build/mytool-1.0-1-x86_64.pkg.tar.zst"), "mytool-1.0-1-x86_64.pkg.tar.zst");
    assert_eq!(file_name("plain.pkg.tar.zst"), "plain.pkg.tar.zst");
}
