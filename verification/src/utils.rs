//! The error value carried by failing probes, and small command-line
//! builders for the shell commands that the caller executes.
use vstd::prelude::*;

verus! {

/// A plain error message. Probe failures and malformed probe output are
/// reported through this type; it carries only the text of the complaint.
#[derive(Debug, Clone)]
pub struct GitError {
    err: String,
}

impl View for GitError {
    type V = Seq<char>;

    closed spec fn view(&self) -> Seq<char> {
        self.err@
    }
}

impl GitError {
    /// Wrap a message.
    pub fn new(err: &str) -> (r: GitError)
        ensures
            r@ == err@,
    {
        GitError { err: String::from_str(err) }
    }

    /// The message carried by this error.
    pub fn message(&self) -> (r: String)
        ensures
            r@ == self@,
    {
        self.err.clone()
    }
}

/// Build an error value from a message.
pub fn ba_error(error: &str) -> (r: GitError)
    ensures
        r@ == error@,
{
    GitError::new(error)
}

/// The shell command that copies `text` to the clipboard; executing it is
/// the caller's concern (it needs a subprocess), and its failure is ignored
/// there as best-effort.
pub fn copy_to_clipboard(text: &str) -> (cmd: String)
    ensures
        cmd@ == "echo '"@ + text@ + "' | xclip -selection clipboard"@,
{
    let mut cmd = String::from_str("echo '");
    cmd.append(text);
    cmd.append("' | xclip -selection clipboard");
    cmd
}

} // verus!
