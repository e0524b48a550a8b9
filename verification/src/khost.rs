//! Self-maintenance decisions of the tool itself: how it was installed
//! and when the service configuration must be rebuilt. Version files and
//! process respawning live in the surrounding program.

use vstd::prelude::*;
use crate::text::contains_seq;

verus! {

/// Whether the running binary was installed through the package
/// registry's `install` command, judged by its path.
pub fn is_cargo_install(binary_path: &str) -> (r: bool)
    ensures
        r == contains_seq(binary_path@, ".cargo"@),
{
    crate::text::contains_str(binary_path, ".cargo")
}

/// Whether a configuration rebuild is required: the recorded tool version
/// is missing or differs from the running one.
pub fn reconfigure_required(stored_version: &Option<String>, current: &str) -> (r: bool)
    ensures
        r == (match stored_version {
            Some(v) => v@ != current@,
            None => true,
        }),
{
    match stored_version {
        Some(v) => !crate::text::str_eq(v.as_str(), current),
        None => true,
    }
}

} // verus!
