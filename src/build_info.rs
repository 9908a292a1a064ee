//! Facts about the build that the kernel reports at boot.
use vstd::prelude::*;

verus! {

/// Whether the build is not a plain release: its version has a pre-release
/// tag, or it was built from a git checkout.
pub fn release_is_unstable(pkg_version_pre: &str, git_version: Option<&str>) -> (res: bool)
    ensures
        res == (pkg_version_pre@.len() > 0 || git_version is Some),
{
    !pkg_version_pre.is_empty() || git_version.is_some()
}

} // verus!
