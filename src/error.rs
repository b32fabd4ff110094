use vstd::prelude::*;
use crate::version::Version;

verus! {

/// Why a bump did not happen.
#[derive(Debug)]
pub enum BumpError {
    /// The working tree has staged or unstaged changes (their descriptions).
    DirtyTree { changes: Vec<String> },
    /// No pattern of the branch allow-list matched the current branch.
    BranchNotAllowed { patterns: Vec<String>, branch: String },
    /// An allow-list is configured but no branch is checked out.
    NoBranch { patterns: Vec<String> },
    /// A pattern of the branch allow-list is not a valid glob.
    InvalidPattern { pattern: String },
    /// The computed version does not exceed the current one.
    Ordering { current: Version, next: Version },
    /// Automatic mode found no commit that warrants a bump.
    NothingToBump,
    /// The part to increment is already at its largest value.
    VersionOverflow,
    /// A hook profile was requested that the configuration does not define.
    UnknownProfile { profile: String },
    /// A hook template could not be turned into a command: its index, and the profile and
    /// package of the hook list it belongs to.
    HookConfig { index: usize, profile: Option<String>, package: Option<String> },
    /// A hook failed; the change set was stashed under `stash` and the tag kept.
    HookExecution { index: usize, cause: String, tag: String, stash: String },
    /// A revision of the requested range is not in the history.
    UnknownRevision,
    /// The history holds no commit.
    EmptyHistory,
    /// No package of the configuration has this name.
    UnknownPackage { name: String },
}

impl BumpError {
    /// Whether this outcome only says that no release is needed.
    pub fn is_nothing_to_bump(&self) -> (r: bool)
        ensures
            r == (*self is NothingToBump),
    {
        match self {
            BumpError::NothingToBump => true,
            _ => false,
        }
    }
}

} // verus!
