//! How Cargo is called.

use vstd::prelude::*;

verus! {

/// The file name of a manifest.
pub const CARGO_TOML: &'static str = "Cargo.toml";

/// The file name of a lockfile.
pub const CARGO_LOCK: &'static str = "Cargo.lock";

/// The file in a published package that says which commit it was published from. It is there
/// unless the package was published from a dirty or missing repository.
pub const CARGO_VCS_INFO: &'static str = ".cargo_vcs_info.json";

/// The environment variable that sets Cargo's quiet mode.
pub const CARGO_TERM_QUIET: &'static str = "CARGO_TERM_QUIET";

/// The value of [`CARGO_TERM_QUIET`] that disables the quiet mode, so that Cargo says why it
/// fails and its output can be read.
pub const FALSE: &'static str = "false";

/// The files and the variable have the names that Cargo has for them.
pub proof fn names_are_those_of_cargo()
    ensures
        CARGO_TOML@ == "Cargo.toml"@,
        CARGO_LOCK@ == "Cargo.lock"@,
        CARGO_VCS_INFO@ == ".cargo_vcs_info.json"@,
        CARGO_TERM_QUIET@ == "CARGO_TERM_QUIET"@,
        FALSE@ == "false"@,
{
}

}
