//! What is recorded of a test case and of the binary that holds it.

use vstd::prelude::*;

verus! {

/// The platform that a binary was built for.
#[derive(Clone, Copy, Debug, PartialEq, Eq, Structural)]
pub enum BuildPlatform {
    /// The platform that the tests are meant for.
    Target,
    /// The platform on which the build ran.
    Host,
}

/// Why a test does not match a filter.
#[derive(Clone, Copy, Debug, PartialEq, Eq, Structural)]
pub enum MismatchReason {
    /// The test is ignored and ignored tests are not run, or the other way
    /// round.
    Ignored,
    /// The name of the test holds none of the patterns asked for.
    String,
    /// The test falls into another partition.
    Partition,
}

/// Whether a test matches a filter, and will be run.
#[derive(Clone, Copy, Debug, PartialEq, Eq, Structural)]
pub enum FilterMatch {
    /// The test matches.
    Matches,
    /// The test does not match.
    Mismatch {
        /// Why it does not.
        reason: MismatchReason,
    },
}

impl FilterMatch {
    /// Whether the test matches.
    pub fn is_match(&self) -> (r: bool)
        ensures
            r == (*self == FilterMatch::Matches),
    {
        match self {
            FilterMatch::Matches => true,
            FilterMatch::Mismatch { .. } => false,
        }
    }
}

/// What is known of one test case.
#[derive(Clone, Copy, Debug, PartialEq, Eq, Structural)]
pub struct RustTestCaseSummary {
    /// Whether the test is marked as ignored: such a test runs only with
    /// `--ignored`.
    pub ignored: bool,
    /// Whether the test matches the filter.
    pub filter_match: FilterMatch,
}

impl BuildPlatform {
    /// The name of the platform in listings.
    pub fn as_str(&self) -> (s: &'static str)
        ensures
            s@ == build_platform_name(*self),
    {
        match self {
            BuildPlatform::Target => "target",
            BuildPlatform::Host => "host",
        }
    }
}

/// The name of a platform in listings.
pub open spec fn build_platform_name(platform: BuildPlatform) -> Seq<char> {
    match platform {
        BuildPlatform::Target => "target"@,
        BuildPlatform::Host => "host"@,
    }
}

} // verus!
