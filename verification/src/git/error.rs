//! Errors of Git commands, and their classification from `stderr`.
use vstd::prelude::*;
use crate::text::{chars_of, contains, contains_exec, push_str, string_of_all, trim, trim_exec};

verus! {

#[derive(Debug)]
pub enum GitError {
    CommandFailed { message: String, hint: Option<String> },
    AuthenticationFailed(String),
    MergeConflict,
    NothingToCommit,
    RepoNotFound(String),
}

/// A `GitError` with its text as character sequences.
pub enum GitErrorV {
    CommandFailed { message: Seq<char>, hint: Option<Seq<char>> },
    AuthenticationFailed(Seq<char>),
    MergeConflict,
    NothingToCommit,
    RepoNotFound(Seq<char>),
}

pub open spec fn opt_view(o: Option<String>) -> Option<Seq<char>> {
    match o {
        Some(s) => Some(s@),
        None => None,
    }
}

impl View for GitError {
    type V = GitErrorV;

    open spec fn view(&self) -> GitErrorV {
        match self {
            GitError::CommandFailed { message, hint } => GitErrorV::CommandFailed {
                message: message@,
                hint: opt_view(*hint),
            },
            GitError::AuthenticationFailed(m) => GitErrorV::AuthenticationFailed(m@),
            GitError::MergeConflict => GitErrorV::MergeConflict,
            GitError::NothingToCommit => GitErrorV::NothingToCommit,
            GitError::RepoNotFound(m) => GitErrorV::RepoNotFound(m@),
        }
    }
}

/// The text shown for an error.
pub open spec fn error_message(e: GitErrorV) -> Seq<char> {
    match e {
        GitErrorV::CommandFailed { message, .. } => message,
        GitErrorV::AuthenticationFailed(m) => "Authentication failed: "@ + m,
        GitErrorV::MergeConflict => "Merge conflict"@,
        GitErrorV::NothingToCommit => "Nothing to commit"@,
        GitErrorV::RepoNotFound(m) => "Repository not found at "@ + m,
    }
}

impl GitError {
    /// The text shown for this error.
    pub fn message(&self) -> (r: String)
        ensures
            r@ == error_message(self@),
    {
        match self {
            GitError::CommandFailed { message, .. } => message.clone(),
            GitError::AuthenticationFailed(m) => {
                let mut v = chars_of("Authentication failed: ");
                push_str(&mut v, m.as_str());
                string_of_all(v.as_slice())
            },
            GitError::MergeConflict => "Merge conflict".to_owned(),
            GitError::NothingToCommit => "Nothing to commit".to_owned(),
            GitError::RepoNotFound(m) => {
                let mut v = chars_of("Repository not found at ");
                push_str(&mut v, m.as_str());
                string_of_all(v.as_slice())
            },
        }
    }
}

/// What `str::to_lowercase` returns for a text (full Unicode case mapping).
pub uninterp spec fn lowercase_of(s: Seq<char>) -> Seq<char>;

/// `str::to_lowercase`: its result is named `lowercase_of` of the argument;
/// nothing more is stated of the Unicode case mapping.
#[verifier::external_body]
pub(crate) fn to_lowercase(s: &str) -> (r: String)
    ensures
        r@ == lowercase_of(s@),
{
    s.to_lowercase()
}

/// The error that `stderr` (with `lower` its lower-cased text) is classified as.
pub open spec fn classify_spec(stderr: Seq<char>, lower: Seq<char>) -> GitErrorV {
    if contains(lower, "authentication failed"@) {
        GitErrorV::AuthenticationFailed("Check credentials: run `git config credential.helper`"@)
    } else if contains(lower, "permission denied (publickey)"@) {
        GitErrorV::AuthenticationFailed("SSH key not found. Run `ssh-add`"@)
    } else if contains(lower, "could not resolve host"@) {
        GitErrorV::CommandFailed {
            message: trim(stderr),
            hint: Some("Check network connection and remote URL"@),
        }
    } else if contains(lower, "non-fast-forward"@) {
        GitErrorV::CommandFailed {
            message: trim(stderr),
            hint: Some("Remote has new commits. Pull first, or use force push"@),
        }
    } else if contains(lower, "nothing to commit"@) {
        GitErrorV::NothingToCommit
    } else if contains(lower, "conflict"@) && contains(lower, "merge"@) {
        GitErrorV::MergeConflict
    } else if contains(lower, "not a git repository"@) {
        GitErrorV::RepoNotFound("Directory is not a git repository"@)
    } else {
        GitErrorV::CommandFailed { message: trim(stderr), hint: None }
    }
}

fn has(lower: &[char], pat: &str) -> (b: bool)
    ensures
        b == contains(lower@, pat@),
{
    let p = chars_of(pat);
    contains_exec(lower, p.as_slice())
}

fn trimmed(s: &str) -> (r: String)
    ensures
        r@ == trim(s@),
{
    let v = chars_of(s);
    let t = trim_exec(v.as_slice());
    string_of_all(t.as_slice())
}

/// Classifies `stderr` given its lower-cased text `lower`.
pub fn classify_lowered(stderr: &str, lower: &str) -> (e: GitError)
    ensures
        e@ == classify_spec(stderr@, lower@),
{
    let l = chars_of(lower);
    if has(l.as_slice(), "authentication failed") {
        GitError::AuthenticationFailed("Check credentials: run `git config credential.helper`".to_owned())
    } else if has(l.as_slice(), "permission denied (publickey)") {
        GitError::AuthenticationFailed("SSH key not found. Run `ssh-add`".to_owned())
    } else if has(l.as_slice(), "could not resolve host") {
        GitError::CommandFailed {
            message: trimmed(stderr),
            hint: Some("Check network connection and remote URL".to_owned()),
        }
    } else if has(l.as_slice(), "non-fast-forward") {
        GitError::CommandFailed {
            message: trimmed(stderr),
            hint: Some("Remote has new commits. Pull first, or use force push".to_owned()),
        }
    } else if has(l.as_slice(), "nothing to commit") {
        GitError::NothingToCommit
    } else if has(l.as_slice(), "conflict") && has(l.as_slice(), "merge") {
        GitError::MergeConflict
    } else if has(l.as_slice(), "not a git repository") {
        GitError::RepoNotFound("Directory is not a git repository".to_owned())
    } else {
        GitError::CommandFailed { message: trimmed(stderr), hint: None }
    }
}

/// Classifies the `stderr` of a failed Git command.
pub fn classify_git_error(stderr: &str) -> (e: GitError)
    ensures
        e@ == classify_spec(stderr@, lowercase_of(stderr@)),
{
    let lower = to_lowercase(stderr);
    classify_lowered(stderr, lower.as_str())
}

/// The result of one Git command: its `stdout` when it succeeded, else the
/// error its `stderr` is classified as.
pub fn git_result(success: bool, stdout: String, stderr: &str) -> (r: Result<String, GitError>)
    ensures
        success ==> (r matches Ok(o) && o@ == stdout@),
        !success ==> (r matches Err(e) && e@ == classify_spec(stderr@, lowercase_of(stderr@))),
{
    if success {
        Ok(stdout)
    } else {
        Err(classify_git_error(stderr))
    }
}

} // verus!
