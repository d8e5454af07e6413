//! Minimal packages.

use release_plz_core::cargo::{CARGO_LOCK, CARGO_TERM_QUIET, CARGO_TOML, CARGO_VCS_INFO, FALSE};
use release_plz_core::scaffold::{package_files, package_manifest};

#[test]
fn manifest_of_a_minimal_package() {
    assert_eq!(
        package_manifest("app", "0.1.0", "[dependencies]\n"),
        "[package]\nname = \"app\"\nversion = \"0.1.0\"\nedition = \"2024\"\n[dependencies]\n"
    );
    assert_eq!(
        package_manifest("quo\"te", "1", ""),
        "[package]\nname = \"quo\\\"te\"\nversion = \"1\"\nedition = \"2024\"\n"
    );
}

#[test]
fn files_of_a_minimal_package() {
    let files = package_files("/root/app", "app", "0.1.0", "");
    assert_eq!(files.source_dir, "/root/app/src");
    assert_eq!(files.paths, ["/root/app/src/lib.rs", "/root/app/Cargo.toml"]);
    assert_eq!(files.contents, ["".to_string(), package_manifest("app", "0.1.0", "")]);
}

#[test]
fn names_that_cargo_knows() {
    assert_eq!(CARGO_TOML, "Cargo.toml");
    assert_eq!(CARGO_LOCK, "Cargo.lock");
    assert_eq!(CARGO_VCS_INFO, ".cargo_vcs_info.json");
    assert_eq!((CARGO_TERM_QUIET, FALSE), ("CARGO_TERM_QUIET", "false"));
}
