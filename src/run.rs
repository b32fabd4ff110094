use vstd::prelude::*;
use crate::error::BumpError;
use crate::commit::opt_view;
use crate::hook::{insert_versions, opt_str_view, substitute};

verus! {

/// An owned copy of an optional text.
pub fn opt_string(o: Option<&str>) -> (r: Option<String>)
    ensures
        opt_view(r) == opt_str_view(o),
{
    match o {
        Some(s) => Some(String::from_str(s)),
        None => None,
    }
}

} // verus!

verus! {

/// The next step of a run of hooks.
#[derive(Debug)]
pub enum HookAction {
    /// Run the command at `index` in the directory `dir`, or at the repository root when
    /// `dir` is `None`.
    Run { index: usize, command: String, dir: Option<String> },
    /// Every command succeeded.
    Finished,
    /// The command at `index` failed; no later command runs.
    Halted { index: usize },
}

/// A run of hook commands, strictly in order, that stops at the first failure.
#[derive(Debug)]
pub struct HookRun {
    pub commands: Vec<String>,
    /// Where the commands run: a package's directory, or the repository root when `None`.
    pub dir: Option<String>,
    pub next: usize,
    pub failed: Option<(usize, String)>,
}

/// The commands of the templates, each with the versions substituted.
pub open spec fn commands_of(ts: Seq<String>, latest: Option<Seq<char>>, next: Seq<char>, cs: Seq<String>) -> bool {
    &&& cs.len() == ts.len()
    &&& forall|k: int| 0 <= k < ts.len() ==> substitute((#[trigger] ts[k])@, latest, next) == Some(cs[k]@)
}

/// Turns the hook templates into commands; `HookConfig` with the index of the first template
/// whose placeholders cannot be resolved, and the profile and package of the list.
pub fn resolve_commands(
    templates: &Vec<String>,
    latest: Option<&str>,
    next: &str,
    profile: Option<&str>,
    package: Option<&str>,
) -> (r: Result<
    Vec<String>,
    BumpError,
>)
    ensures
        r matches Ok(cs) ==> commands_of(templates@, opt_str_view(latest), next@, cs@),
        r matches Err(e) ==> (e matches BumpError::HookConfig { index, profile: p, package: k }
            && opt_view(p) == opt_str_view(profile) && opt_view(k) == opt_str_view(package)
            && index < templates@.len()
            && substitute(templates@[index as int]@, opt_str_view(latest), next@) is None
            && forall|k: int| 0 <= k < index ==> substitute((#[trigger] templates@[k])@, opt_str_view(latest), next@) is Some),
        (forall|k: int| 0 <= k < templates@.len() ==> substitute((#[trigger] templates@[k])@, opt_str_view(latest), next@) is Some) ==> r is Ok,
{
    let mut out: Vec<String> = Vec::new();
    let mut i: usize = 0;
    while i < templates.len()
        invariant
            0 <= i <= templates@.len(),
            commands_of(templates@.take(i as int), opt_str_view(latest), next@, out@),
        decreases templates@.len() - i,
    {
        match insert_versions(templates[i].as_str(), latest, next) {
            None => {
                assert forall|k: int| 0 <= k < i implies substitute((#[trigger] templates@[k])@, opt_str_view(latest), next@) is Some by {
                    assert(templates@.take(i as int)[k] == templates@[k]);
                }
                return Err(
                    BumpError::HookConfig { index: i, profile: opt_string(profile), package: opt_string(package) },
                );
            },
            Some(c) => {
                out.push(c);
                assert forall|k: int| 0 <= k < i + 1 implies substitute((#[trigger] templates@.take(i + 1)[k])@, opt_str_view(latest), next@) == Some(out@[k]@) by {
                    if k < i {
                        assert(templates@.take(i + 1)[k] == templates@.take(i as int)[k]);
                    }
                }
            },
        }
        i += 1;
    }
    assert(templates@.take(templates@.len() as int) =~= templates@);
    Ok(out)
}

impl HookRun {
    pub open spec fn wf(&self) -> bool {
        &&& self.next <= self.commands@.len()
        &&& self.failed matches Some(f) ==> f.0 == self.next && f.0 < self.commands@.len()
    }

    /// The step that the state calls for.
    pub open spec fn action_spec(&self) -> HookAction {
        match self.failed {
            Some(f) => HookAction::Halted { index: f.0 },
            None => if self.next < self.commands@.len() {
                HookAction::Run {
                    index: self.next,
                    command: self.commands@[self.next as int],
                    dir: self.dir,
                }
            } else {
                HookAction::Finished
            },
        }
    }

    /// A run that has not started.
    pub fn new(commands: Vec<String>, dir: Option<String>) -> (r: HookRun)
        ensures
            r.wf(),
            r.commands == commands,
            r.dir == dir,
            r.next == 0,
            r.failed is None,
    {
        HookRun { commands, dir, next: 0, failed: None }
    }

    /// The step to perform next: run the next command, or stop.
    pub fn next_action(&self) -> (r: HookAction)
        requires
            self.wf(),
        ensures
            r == self.action_spec(),
    {
        match &self.failed {
            Some(f) => HookAction::Halted { index: f.0 },
            None => {
                if self.next < self.commands.len() {
                    HookAction::Run {
                        index: self.next,
                        command: self.commands[self.next].clone(),
                        dir: crate::tag::copy_text(&self.dir),
                    }
                } else {
                    HookAction::Finished
                }
            },
        }
    }

    /// Records how the command that `next_action` asked for ended: on success the run moves
    /// to the following command, on failure it halts at this one with the cause.
    pub fn record(&mut self, outcome: Result<(), String>)
        requires
            old(self).wf(),
            old(self).failed is None,
            old(self).next < old(self).commands@.len(),
        ensures
            final(self).wf(),
            final(self).commands == old(self).commands,
            final(self).dir == old(self).dir,
            outcome is Ok ==> final(self).next == old(self).next + 1 && final(self).failed is None,
            outcome matches Err(c) ==> final(self).next == old(self).next && final(self).failed == Some(
                (old(self).next, c),
            ),
    {
        // Reading the length brings in that it fits in a usize, which bounds `next + 1`.
        let _len = self.commands.len();
        match outcome {
            Ok(()) => {
                self.next = self.next + 1;
            },
            Err(c) => {
                self.failed = Some((self.next, c));
            },
        }
    }

    /// Whether a command failed.
    pub fn has_failed(&self) -> (r: bool)
        ensures
            r == self.failed is Some,
    {
        self.failed.is_some()
    }

    /// Ends a run that halted or ran every command. After a failure the tag `tag` is kept and
    /// the change set is stashed under `stash`; the report names the failing index, its cause
    /// and both.
    pub fn finish(self, tag: String, stash: String) -> (r: Result<(), BumpError>)
        requires
            self.wf(),
            self.failed is Some || self.next == self.commands@.len(),
        ensures
            self.failed is None ==> r is Ok,
            self.failed matches Some(f) ==> r == Err::<(), BumpError>(
                BumpError::HookExecution { index: f.0, cause: f.1, tag, stash },
            ),
    {
        match self.failed {
            None => Ok(()),
            Some((index, cause)) => Err(BumpError::HookExecution { index, cause, tag, stash }),
        }
    }
}

/// Once a command has failed the run halts at its index: no later command is asked for, and
/// no further outcome can be recorded.
pub proof fn lemma_failure_halts(run: HookRun)
    requires
        run.wf(),
        run.failed is Some,
    ensures
        run.failed matches Some(f) ==> run.action_spec() == (HookAction::Halted { index: f.0 }),
{
}

} // verus!
