//! `fp version`: the output formats and what the version check reports.
use vstd::prelude::*;

verus! {

/// How `fp version` prints the build information.
#[derive(Clone, Copy, Debug, PartialEq, Eq, Structural)]
pub enum OutputType {
    /// Only the version.
    Version,
    /// All the build information.
    Verbose,
    /// All the build information, as JSON.
    Json,
}

/// What the version check found.
#[derive(Clone, Copy, Debug, PartialEq, Eq, Structural)]
pub enum VersionCheck {
    /// The running binary is the latest release.
    Latest,
    /// Another release is published.
    NewerAvailable,
}

/// Compares the published version with the running one: they are the same
/// release exactly when the texts are equal.
pub fn check_version(remote_version: &str, build_version: &str) -> (r: VersionCheck)
    ensures
        (r == VersionCheck::Latest) == (remote_version@ == build_version@),
{
    let a = crate::text::chars_of(remote_version);
    let b = crate::text::chars_of(build_version);
    if crate::text::chars_eq(&a, &b) {
        VersionCheck::Latest
    } else {
        VersionCheck::NewerAvailable
    }
}

} // verus!
