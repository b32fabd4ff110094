use vstd::prelude::*;

verus! {

/// The stages of one bump, in order, and its three ends.
#[derive(Clone, Copy, Debug, PartialEq, Eq, Structural)]
pub enum BumpStage {
    Start,
    PreflightChecked,
    RangeResolved,
    VersionComputed,
    PreHooksRun,
    Tagged,
    PostHooksRun,
    /// The changelog and version bump are committed and the tag created.
    Committed,
    /// A step failed before the tag existed: nothing was persisted.
    Aborted,
    /// A step failed after the tag was created: the change set was stashed and reported.
    RolledBack,
}

/// What the caller does after a step.
#[derive(Clone, Copy, Debug, PartialEq, Eq, Structural)]
pub enum StageAction {
    /// Perform the step of the new stage.
    Continue,
    /// Stop and report; nothing to undo.
    Abort,
    /// Stash the change set under a recoverable handle and report it with the cause.
    StashAndReport,
    /// The bump is over.
    Done,
}

pub open spec fn is_terminal(s: BumpStage) -> bool {
    s is Committed || s is Aborted || s is RolledBack
}

/// Whether the tag exists in this stage.
pub open spec fn tag_created(s: BumpStage) -> bool {
    s is Tagged || s is PostHooksRun || s is Committed || s is RolledBack
}

pub open spec fn successor(s: BumpStage) -> BumpStage {
    match s {
        BumpStage::Start => BumpStage::PreflightChecked,
        BumpStage::PreflightChecked => BumpStage::RangeResolved,
        BumpStage::RangeResolved => BumpStage::VersionComputed,
        BumpStage::VersionComputed => BumpStage::PreHooksRun,
        BumpStage::PreHooksRun => BumpStage::Tagged,
        BumpStage::Tagged => BumpStage::PostHooksRun,
        BumpStage::PostHooksRun => BumpStage::Committed,
        other => other,
    }
}

/// The stage after the step of `s` ended with `succeeded`, and what to do.
pub open spec fn advance_spec(s: BumpStage, succeeded: bool) -> (BumpStage, StageAction) {
    if is_terminal(s) {
        (s, StageAction::Done)
    } else if succeeded {
        let n = successor(s);
        (n, if n is Committed { StageAction::Done } else { StageAction::Continue })
    } else if tag_created(s) {
        (BumpStage::RolledBack, StageAction::StashAndReport)
    } else {
        (BumpStage::Aborted, StageAction::Abort)
    }
}

/// Moves a bump on after the step of stage `stage` ended with `succeeded`.
pub fn advance(stage: BumpStage, succeeded: bool) -> (r: (BumpStage, StageAction))
    ensures
        r == advance_spec(stage, succeeded),
{
    match stage {
        BumpStage::Committed | BumpStage::Aborted | BumpStage::RolledBack => (stage, StageAction::Done),
        _ => {
            if succeeded {
                let n = match stage {
                    BumpStage::Start => BumpStage::PreflightChecked,
                    BumpStage::PreflightChecked => BumpStage::RangeResolved,
                    BumpStage::RangeResolved => BumpStage::VersionComputed,
                    BumpStage::VersionComputed => BumpStage::PreHooksRun,
                    BumpStage::PreHooksRun => BumpStage::Tagged,
                    BumpStage::Tagged => BumpStage::PostHooksRun,
                    _ => BumpStage::Committed,
                };
                let action = match n {
                    BumpStage::Committed => StageAction::Done,
                    _ => StageAction::Continue,
                };
                (n, action)
            } else {
                match stage {
                    BumpStage::Tagged | BumpStage::PostHooksRun => (BumpStage::RolledBack, StageAction::StashAndReport),
                    _ => (BumpStage::Aborted, StageAction::Abort),
                }
            }
        },
    }
}

/// A failure once the tag exists is never discarded: it always leads to the stash-and-report
/// rollback; a failure before leaves nothing to undo.
pub proof fn lemma_failure_after_tag_rolls_back(s: BumpStage)
    requires
        !is_terminal(s),
    ensures
        tag_created(s) ==> advance_spec(s, false) == (BumpStage::RolledBack, StageAction::StashAndReport),
        !tag_created(s) ==> advance_spec(s, false) == (BumpStage::Aborted, StageAction::Abort),
        !tag_created(advance_spec(s, false).0) ==> !tag_created(s),
{
}

} // verus!
