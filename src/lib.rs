//! Release computation for repositories that follow the conventional-commit convention:
//! commit classification, commit ranges, next-version resolution, tag ordering, branch gating,
//! hook resolution and the hook run with its rollback report.

use vstd::prelude::*;

pub mod bump;
pub mod commit;
pub mod engine;
pub mod error;
pub mod hook;
pub mod lifecycle;
pub mod prerelease;
pub mod range;
pub mod release;
pub mod run;
pub mod settings;
pub mod summary;
pub mod tag;
pub mod version;

pub use engine::CocoGitto;

verus! {

} // verus!
