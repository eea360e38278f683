//! Status classification as a state machine. The caller owns the
//! subprocesses: it asks `next_action` which probe to run, runs it, and
//! hands the outcome to `classify_step` until the state is `Done`. The
//! decisions — what each probe output means and in which order probes
//! run — all live here and are verified.
//!
//! The probe sequence: a local status probe decides `NeedCommit` at once
//! when the working tree is dirty; otherwise the configured remotes are
//! listed, and a repository without remotes is `Clean`; ahead/behind
//! markers already present in the first status output are used directly,
//! else a bounded `fetch` refreshes the tracking refs and a second status
//! probe supplies the markers. Any probe failure resolves to `Timeout`.
use vstd::prelude::*;

use crate::status::GitStatus;
use crate::status::spec_resolve_markers;
use crate::status::resolve_markers;
use crate::text::contains_seq;
use crate::text::contains_chars;
use crate::text::str_to_chars;

verus! {

/// Where a classification stands between probes.
#[derive(Debug, Clone, Copy, PartialEq, Eq, Structural)]
pub enum ClassifyState {
    /// Waiting for the output of the first local status probe.
    AwaitStatus,
    /// Working tree clean; waiting for the remote listing. The markers
    /// seen in the first status output ride along.
    AwaitRemotes { need_pull: bool, need_push: bool },
    /// No markers yet; waiting for the bounded fetch to finish.
    AwaitFetch,
    /// Fetch done; waiting for the second local status probe.
    AwaitSecondStatus,
    /// Classification finished.
    Done { status: GitStatus },
}

/// What the caller should run next for a classification in this state.
#[derive(Debug, Clone, Copy, PartialEq, Eq, Structural)]
pub enum ProbeAction {
    /// Run the local status probe (`status_command`).
    RunStatus,
    /// List the configured remotes (`remote_show_command`).
    RunRemoteShow,
    /// Refresh tracking refs, bounded by `FETCH_TIMEOUT_SECS`
    /// (`fetch_command`).
    RunFetch,
}

/// The outcome of one probe: its captured standard output, or failure
/// (spawn failure, non-zero exit where that matters, or timeout).
#[derive(Debug)]
pub enum ProbeResult {
    Output(String),
    Failure,
}

impl View for ProbeResult {
    type V = Option<Seq<char>>;

    open spec fn view(&self) -> Option<Seq<char>> {
        match self {
            ProbeResult::Output(s) => Some(s@),
            ProbeResult::Failure => None,
        }
    }
}

/// Seconds the fetch probe may take before it is cut off.
pub const FETCH_TIMEOUT_SECS: u64 = 5;

/// The status output reports a clean working tree.
pub open spec fn has_clean_marker(t: Seq<char>) -> bool {
    contains_seq(t, "working tree clean"@)
}

/// The status output reports the branch behind its upstream.
pub open spec fn has_pull_marker(t: Seq<char>) -> bool {
    contains_seq(t, "git pull"@)
}

/// The status output reports the branch ahead of its upstream.
pub open spec fn has_push_marker(t: Seq<char>) -> bool {
    contains_seq(t, "git push"@)
}

/// One transition of the classification machine, on a probe outcome
/// (`None` is a failed probe).
pub open spec fn spec_classify_step(st: ClassifyState, out: Option<Seq<char>>) -> ClassifyState {
    match st {
        ClassifyState::Done { .. } => st,
        _ => match out {
            None => ClassifyState::Done { status: GitStatus::Timeout },
            Some(t) => match st {
                ClassifyState::AwaitStatus => if !has_clean_marker(t) {
                    ClassifyState::Done { status: GitStatus::NeedCommit }
                } else {
                    ClassifyState::AwaitRemotes {
                        need_pull: has_pull_marker(t),
                        need_push: has_push_marker(t),
                    }
                },
                ClassifyState::AwaitRemotes { need_pull, need_push } => if t.len() == 0 {
                    ClassifyState::Done { status: GitStatus::Clean }
                } else if need_pull || need_push {
                    ClassifyState::Done { status: spec_resolve_markers(need_pull, need_push) }
                } else {
                    ClassifyState::AwaitFetch
                },
                ClassifyState::AwaitFetch => ClassifyState::AwaitSecondStatus,
                ClassifyState::AwaitSecondStatus => ClassifyState::Done {
                    status: spec_resolve_markers(has_pull_marker(t), has_push_marker(t)),
                },
                ClassifyState::Done { .. } => st,
            },
        },
    }
}

/// How many probes a classification in this state can still need; each
/// step strictly lowers it until the state is `Done`.
pub open spec fn steps_remaining(st: ClassifyState) -> int {
    match st {
        ClassifyState::AwaitStatus => 4,
        ClassifyState::AwaitRemotes { .. } => 3,
        ClassifyState::AwaitFetch => 2,
        ClassifyState::AwaitSecondStatus => 1,
        ClassifyState::Done { .. } => 0,
    }
}

/// The status output reports a clean working tree.
pub fn clean_marker(t: &Vec<char>) -> (b: bool)
    ensures
        b == has_clean_marker(t@),
{
    contains_chars(t, &str_to_chars("working tree clean"))
}

/// The status output reports the branch behind its upstream.
pub fn pull_marker(t: &Vec<char>) -> (b: bool)
    ensures
        b == has_pull_marker(t@),
{
    contains_chars(t, &str_to_chars("git pull"))
}

/// The status output reports the branch ahead of its upstream.
pub fn push_marker(t: &Vec<char>) -> (b: bool)
    ensures
        b == has_push_marker(t@),
{
    contains_chars(t, &str_to_chars("git push"))
}

/// Advance a classification by one probe outcome.
pub fn classify_step(st: ClassifyState, res: &ProbeResult) -> (r: ClassifyState)
    ensures
        r == spec_classify_step(st, res@),
        !(st is Done) ==> steps_remaining(r) < steps_remaining(st),
{
    match st {
        ClassifyState::Done { .. } => st,
        _ => match res {
            ProbeResult::Failure => ClassifyState::Done { status: GitStatus::Timeout },
            ProbeResult::Output(s) => {
                let t = str_to_chars(s.as_str());
                match st {
                    ClassifyState::AwaitStatus => {
                        if !clean_marker(&t) {
                            ClassifyState::Done { status: GitStatus::NeedCommit }
                        } else {
                            ClassifyState::AwaitRemotes {
                                need_pull: pull_marker(&t),
                                need_push: push_marker(&t),
                            }
                        }
                    },
                    ClassifyState::AwaitRemotes { need_pull, need_push } => {
                        if t.len() == 0 {
                            ClassifyState::Done { status: GitStatus::Clean }
                        } else if need_pull || need_push {
                            ClassifyState::Done { status: resolve_markers(need_pull, need_push) }
                        } else {
                            ClassifyState::AwaitFetch
                        }
                    },
                    ClassifyState::AwaitFetch => ClassifyState::AwaitSecondStatus,
                    ClassifyState::AwaitSecondStatus => ClassifyState::Done {
                        status: resolve_markers(pull_marker(&t), push_marker(&t)),
                    },
                    ClassifyState::Done { .. } => st,
                }
            },
        },
    }
}

/// What to run next, or nothing once the classification is done.
pub fn next_action(st: &ClassifyState) -> (r: Option<ProbeAction>)
    ensures
        match st {
            ClassifyState::AwaitStatus => r == Some(ProbeAction::RunStatus),
            ClassifyState::AwaitRemotes { .. } => r == Some(ProbeAction::RunRemoteShow),
            ClassifyState::AwaitFetch => r == Some(ProbeAction::RunFetch),
            ClassifyState::AwaitSecondStatus => r == Some(ProbeAction::RunStatus),
            ClassifyState::Done { .. } => r is None,
        },
{
    match st {
        ClassifyState::AwaitStatus => Some(ProbeAction::RunStatus),
        ClassifyState::AwaitRemotes { .. } => Some(ProbeAction::RunRemoteShow),
        ClassifyState::AwaitFetch => Some(ProbeAction::RunFetch),
        ClassifyState::AwaitSecondStatus => Some(ProbeAction::RunStatus),
        ClassifyState::Done { .. } => None,
    }
}

/// Classification precedence: a status output without the clean-tree
/// marker decides `NeedCommit` immediately, whatever the remote state
/// would have said — the machine never reaches the remote probes.
pub proof fn lemma_needcommit_precedence(t: Seq<char>)
    requires
        !has_clean_marker(t),
    ensures
        spec_classify_step(ClassifyState::AwaitStatus, Some(t)) == (ClassifyState::Done {
            status: GitStatus::NeedCommit,
        }),
{
}

/// A finished classification stays as it is, whatever else arrives.
pub proof fn lemma_done_is_absorbing(st: GitStatus, out: Option<Seq<char>>)
    ensures
        spec_classify_step(ClassifyState::Done { status: st }, out) == (ClassifyState::Done {
            status: st,
        }),
{
}

/// The local status probe: its output carries the clean-tree marker and
/// the ahead/behind markers.
pub fn status_command(path: &str) -> (cmd: String)
    ensures
        cmd@ == "cd "@ + path@ + " && git status"@,
{
    let mut cmd = String::from_str("cd ");
    cmd.append(path);
    cmd.append(" && git status");
    cmd
}

/// The remote listing probe: empty output means no configured remote.
pub fn remote_show_command(path: &str) -> (cmd: String)
    ensures
        cmd@ == "cd "@ + path@ + " && git remote show"@,
{
    let mut cmd = String::from_str("cd ");
    cmd.append(path);
    cmd.append(" && git remote show");
    cmd
}

/// The tracking-ref refresh probe; the caller bounds it by
/// `FETCH_TIMEOUT_SECS` and reports a cut-off as a failure.
pub fn fetch_command(path: &str) -> (cmd: String)
    ensures
        cmd@ == "cd "@ + path@ + " && git fetch"@,
{
    let mut cmd = String::from_str("cd ");
    cmd.append(path);
    cmd.append(" && git fetch");
    cmd
}

} // verus!
