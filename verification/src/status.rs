//! The synchronization state of one repository relative to its remote.
use vstd::prelude::*;

use crate::text::str_to_chars;

verus! {

/// Classification outcome for one repository. Exactly one state holds at a
/// time; `NeedCommit` takes precedence over the remote-divergence states,
/// `NeedPush` over `NeedPull`, and `Timeout` stands in for any failed probe.
#[derive(Debug, Clone, Copy, PartialEq, Eq, Structural)]
pub enum GitStatus {
    Clean,
    NeedPull,
    NeedPush,
    NeedCommit,
    Timeout,
}

/// Map ahead/behind markers to a status: when both are present `NeedPush`
/// wins (a policy choice, not a fact of the markers); with neither the
/// repository is `Clean`.
pub open spec fn spec_resolve_markers(need_pull: bool, need_push: bool) -> GitStatus {
    if need_push {
        GitStatus::NeedPush
    } else if need_pull {
        GitStatus::NeedPull
    } else {
        GitStatus::Clean
    }
}

/// Map ahead/behind markers to a status: when both are present `NeedPush`
/// wins; with neither the repository is `Clean`.
pub fn resolve_markers(need_pull: bool, need_push: bool) -> (r: GitStatus)
    ensures
        r == spec_resolve_markers(need_pull, need_push),
        need_push ==> r == GitStatus::NeedPush,
        !need_push && need_pull ==> r == GitStatus::NeedPull,
        !need_push && !need_pull ==> r == GitStatus::Clean,
{
    if need_push {
        GitStatus::NeedPush
    } else if need_pull {
        GitStatus::NeedPull
    } else {
        GitStatus::Clean
    }
}

/// The canonical name of each status, as it appears in filter tokens and in
/// the persisted cache.
pub open spec fn spec_status_name(st: GitStatus) -> Seq<char> {
    match st {
        GitStatus::Clean => "Clean"@,
        GitStatus::NeedPull => "NeedPull"@,
        GitStatus::NeedPush => "NeedPush"@,
        GitStatus::NeedCommit => "NeedCommit"@,
        GitStatus::Timeout => "Timeout"@,
    }
}

/// The status whose canonical name is `s`, if any.
pub open spec fn spec_status_from_name(s: Seq<char>) -> Result<GitStatus, ()> {
    if s == "Clean"@ {
        Ok(GitStatus::Clean)
    } else if s == "NeedPull"@ {
        Ok(GitStatus::NeedPull)
    } else if s == "NeedPush"@ {
        Ok(GitStatus::NeedPush)
    } else if s == "NeedCommit"@ {
        Ok(GitStatus::NeedCommit)
    } else if s == "Timeout"@ {
        Ok(GitStatus::Timeout)
    } else {
        Err(())
    }
}

/// Two character vectors hold the same characters.
pub(crate) fn eq_chars(a: &Vec<char>, b: &Vec<char>) -> (r: bool)
    ensures
        r == (a@ == b@),
{
    if a.len() != b.len() {
        return false;
    }
    let mut i: usize = 0;
    while i < a.len()
        invariant
            i <= a@.len(),
            a@.len() == b@.len(),
            forall|k: int| 0 <= k < i ==> a@[k] == b@[k],
        decreases a@.len() - i,
    {
        if a[i] != b[i] {
            return false;
        }
        i = i + 1;
    }
    proof {
        assert(a@ =~= b@);
    }
    true
}

impl GitStatus {
    /// Parse a status from its canonical name; any other text is rejected.
    pub fn from_str(s: &str) -> (r: Result<GitStatus, ()>)
        ensures
            r == spec_status_from_name(s@),
    {
        let cs = str_to_chars(s);
        Self::from_chars(&cs)
    }

    /// Parse a status from its canonical name given as characters.
    pub fn from_chars(cs: &Vec<char>) -> (r: Result<GitStatus, ()>)
        ensures
            r == spec_status_from_name(cs@),
    {
        if eq_chars(cs, &str_to_chars("Clean")) {
            Ok(GitStatus::Clean)
        } else if eq_chars(cs, &str_to_chars("NeedPull")) {
            Ok(GitStatus::NeedPull)
        } else if eq_chars(cs, &str_to_chars("NeedPush")) {
            Ok(GitStatus::NeedPush)
        } else if eq_chars(cs, &str_to_chars("NeedCommit")) {
            Ok(GitStatus::NeedCommit)
        } else if eq_chars(cs, &str_to_chars("Timeout")) {
            Ok(GitStatus::Timeout)
        } else {
            Err(())
        }
    }

    /// The canonical name of this status.
    pub fn name(&self) -> (r: String)
        ensures
            r@ == spec_status_name(*self),
    {
        match self {
            GitStatus::Clean => String::from_str("Clean"),
            GitStatus::NeedPull => String::from_str("NeedPull"),
            GitStatus::NeedPush => String::from_str("NeedPush"),
            GitStatus::NeedCommit => String::from_str("NeedCommit"),
            GitStatus::Timeout => String::from_str("Timeout"),
        }
    }
}

/// Parsing a status back from its canonical name recovers the status: the
/// five names are pairwise distinct.
pub proof fn lemma_status_name_round_trip(st: GitStatus)
    ensures
        spec_status_from_name(spec_status_name(st)) == Ok::<GitStatus, ()>(st),
{
    reveal_strlit("Clean");
    reveal_strlit("NeedPull");
    reveal_strlit("NeedPush");
    reveal_strlit("NeedCommit");
    reveal_strlit("Timeout");
    assert("NeedPull"@[6] == 'l');
    assert("NeedPush"@[6] == 's');
    assert("Clean"@.len() == 5);
    assert("NeedPull"@.len() == 8);
    assert("NeedPush"@.len() == 8);
    assert("NeedCommit"@.len() == 10);
    assert("Timeout"@.len() == 7);
}

} // verus!
