//! Minimal packages, as tests write them to disk.

use crate::cargo::CARGO_TOML;
use crate::path::{join, joined_path};
use crate::text::{debug_format, debug_text, texts};
use vstd::prelude::*;

verus! {

/// The manifest of a package: a `[package]` table, followed by `extra_toml`.
pub open spec fn manifest_text(name: Seq<char>, version: Seq<char>, extra_toml: Seq<char>) -> Seq<
    char,
> {
    "[package]\nname = "@ + debug_text(name) + "\nversion = "@ + debug_text(version)
        + "\nedition = \"2024\"\n"@ + extra_toml
}

/// The manifest of a minimal package: a `[package]` table with `name`, `version` and
/// `edition = "2024"`, followed by `extra_toml`.
pub fn package_manifest(name: &str, version: &str, extra_toml: &str) -> (r: String)
    ensures
        r@ == manifest_text(name@, version@, extra_toml@),
{
    let mut r = "[package]\nname = ".to_owned();
    r.append(debug_format(name).as_str());
    r.append("\nversion = ");
    r.append(debug_format(version).as_str());
    r.append("\nedition = \"2024\"\n");
    r.append(extra_toml);
    r
}

/// The files of a minimal library package.
#[derive(Debug)]
pub struct PackageFiles {
    /// The directory of the sources, to be created with its ancestors.
    pub source_dir: String,
    /// The paths of the files.
    pub paths: Vec<String>,
    /// What each of them holds.
    pub contents: Vec<String>,
}

/// The files of a minimal library package in `dir`: an empty `src/lib.rs`, and the manifest
/// that [`package_manifest`] returns.
pub fn package_files(dir: &str, name: &str, version: &str, extra_toml: &str) -> (r: PackageFiles)
    ensures
        r.source_dir@ == joined_path(dir@, "src"@),
        texts(r.paths@) == seq![joined_path(dir@, "src/lib.rs"@), joined_path(dir@, "Cargo.toml"@)],
        texts(r.contents@) == seq![""@, manifest_text(name@, version@, extra_toml@)],
{
    let mut paths: Vec<String> = Vec::new();
    paths.push(join(dir, "src/lib.rs"));
    paths.push(join(dir, CARGO_TOML));
    let mut contents: Vec<String> = Vec::new();
    contents.push("".to_owned());
    contents.push(package_manifest(name, version, extra_toml));
    let r = PackageFiles { source_dir: join(dir, "src"), paths, contents };
    assert(texts(r.paths@) =~= seq![
        joined_path(dir@, "src/lib.rs"@),
        joined_path(dir@, "Cargo.toml"@),
    ]);
    assert(texts(r.contents@) =~= seq![""@, manifest_text(name@, version@, extra_toml@)]);
    r
}

/// The manifest of a package holds its name and its version in quotes, its edition, and behind
/// them what else it is given.
pub proof fn manifest_holds_what_it_is_given(
    name: &str,
    version: &str,
    extra_toml: &str,
    r: String,
)
    requires
        call_ensures(package_manifest, (name, version, extra_toml), r),
    ensures
        r@ == "[package]\nname = "@ + debug_text(name@) + "\nversion = "@ + debug_text(version@)
            + "\nedition = \"2024\"\n"@ + extra_toml@,
{
}

/// The files of a package are an empty library and the manifest.
pub proof fn package_has_a_library_and_a_manifest(
    dir: &str,
    name: &str,
    version: &str,
    extra_toml: &str,
    r: PackageFiles,
    manifest: String,
)
    requires
        call_ensures(package_files, (dir, name, version, extra_toml), r),
        call_ensures(package_manifest, (name, version, extra_toml), manifest),
    ensures
        r.source_dir@ == joined_path(dir@, "src"@),
        texts(r.paths@) == seq![joined_path(dir@, "src/lib.rs"@), joined_path(dir@, "Cargo.toml"@)],
        texts(r.contents@) == seq![""@, manifest@],
{
}

}
