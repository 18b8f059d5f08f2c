//! Operations that take several git commands, each chosen from the answer
//! to the one before: squash, checkout (with upstream tracking), reword.
//!
//! Each operation is a value that says which command to run next; the caller
//! runs it and hands back its result (`Ok(stdout)` or the classified error).
use vstd::prelude::*;
use super::error::{GitError, GitErrorV};
use super::hunk::{arg, strs};
use super::mutation::{ref_name_error, validate_ref_name};
use crate::text::{
    after_last_char, after_last_char_exec, chars_of, lines, lines_exec, push_str, starts_with,
    starts_with_exec, string_of_all, trim, trim_exec,
};

verus! {

/// What to do next: run git with these arguments, or stop with a result.
pub enum GitStep<T> {
    Run(Vec<String>),
    Finish(T),
}

pub enum GitStepV<T> {
    Run(Seq<Seq<char>>),
    Finish(T),
}

pub open spec fn rv(r: Result<String, GitError>) -> Result<Seq<char>, GitErrorV> {
    match r {
        Ok(s) => Ok(s@),
        Err(e) => Err(e@),
    }
}

pub open spec fn unit_v(r: Result<(), GitError>) -> Result<(), GitErrorV> {
    match r {
        Ok(()) => Ok(()),
        Err(e) => Err(e@),
    }
}

pub open spec fn step_unit(s: GitStep<Result<(), GitError>>) -> GitStepV<Result<(), GitErrorV>> {
    match s {
        GitStep::Run(a) => GitStepV::Run(strs(a@)),
        GitStep::Finish(r) => GitStepV::Finish(unit_v(r)),
    }
}

fn cat(a: &str, b: &str) -> (r: String)
    ensures
        r@ == a@ + b@,
{
    let mut v = chars_of(a);
    push_str(&mut v, b);
    string_of_all(v.as_slice())
}

fn trimmed(s: &str) -> (r: String)
    ensures
        r@ == trim(s@),
{
    let v = chars_of(s);
    let t = trim_exec(v.as_slice());
    string_of_all(t.as_slice())
}

// ---------------------------------------------------------------------------
// Squash
// ---------------------------------------------------------------------------

#[derive(Clone, Copy, Debug, PartialEq, Eq, Structural)]
pub enum SquashStage {
    /// `rev-parse <oldest>^`.
    Parent,
    /// `reset --soft <parent>`.
    Reset,
    /// `commit -m <message>`.
    Commit,
    Finished,
}

/// Squashing the selected commits (newest first) into one commit with
/// `message`: the branch is reset softly onto the oldest one's parent and
/// committed again.
pub struct Squash {
    pub message: String,
    pub stage: SquashStage,
}

pub open spec fn squash_next(message: Seq<char>, stage: SquashStage, reply: Result<Seq<char>, GitErrorV>) -> (
    SquashStage,
    GitStepV<Result<(), GitErrorV>>,
) {
    match reply {
        Err(e) => (SquashStage::Finished, GitStepV::Finish(Err(e))),
        Ok(out) => match stage {
            SquashStage::Parent => (
                SquashStage::Reset,
                GitStepV::Run(seq!["reset"@, "--soft"@, trim(out)]),
            ),
            SquashStage::Reset => (
                SquashStage::Commit,
                GitStepV::Run(seq!["commit"@, "-m"@, message]),
            ),
            _ => (SquashStage::Finished, GitStepV::Finish(Ok(()))),
        },
    }
}

/// Starts a squash of `oids` (newest first): at least two are needed.
pub fn squash(oids: &Vec<String>, message: &str) -> (r: Result<(Squash, Vec<String>), GitError>)
    ensures
        oids@.len() < 2 ==> (r matches Err(e) && e@ == GitErrorV::CommandFailed {
            message: "Need at least 2 commits to squash"@,
            hint: None,
        }),
        oids@.len() >= 2 ==> (r matches Ok(p) && p.0.message@ == message@ && p.0.stage
            == SquashStage::Parent && strs(p.1@) == seq!["rev-parse"@, oids@.last()@ + "^"@]),
{
    if oids.len() < 2 {
        return Err(
            GitError::CommandFailed { message: arg("Need at least 2 commits to squash"), hint: None },
        );
    }
    let oldest = &oids[oids.len() - 1];
    let args = vec![arg("rev-parse"), cat(oldest.as_str(), "^")];
    assert(strs(args@) =~= seq!["rev-parse"@, oids@.last()@ + "^"@]);
    Ok((Squash { message: arg(message), stage: SquashStage::Parent }, args))
}

impl Squash {
    /// Takes the result of the last command and says what to do next.
    pub fn step(&mut self, reply: Result<String, GitError>) -> (s: GitStep<Result<(), GitError>>)
        requires
            old(self).stage != SquashStage::Finished,
        ensures
            final(self).message == old(self).message,
            (final(self).stage, step_unit(s)) == squash_next(
                old(self).message@,
                old(self).stage,
                rv(reply),
            ),
    {
        match reply {
            Err(e) => {
                self.stage = SquashStage::Finished;
                GitStep::Finish(Err(e))
            },
            Ok(out) => match self.stage {
                SquashStage::Parent => {
                    self.stage = SquashStage::Reset;
                    let a = vec![arg("reset"), arg("--soft"), trimmed(out.as_str())];
                    assert(strs(a@) =~= seq!["reset"@, "--soft"@, trim(out@)]);
                    GitStep::Run(a)
                },
                SquashStage::Reset => {
                    self.stage = SquashStage::Commit;
                    let a = vec![arg("commit"), arg("-m"), self.message.clone()];
                    assert(strs(a@) =~= seq!["commit"@, "-m"@, self.message@]);
                    GitStep::Run(a)
                },
                _ => {
                    self.stage = SquashStage::Finished;
                    GitStep::Finish(Ok(()))
                },
            },
        }
    }
}

// ---------------------------------------------------------------------------
// Checkout
// ---------------------------------------------------------------------------

/// Where a checkout stands.
pub enum CheckoutStage {
    /// `switch -- <branch>`.
    Switch,
    /// `remote` (the switch worked; looking for an upstream to track).
    Remotes,
    /// `rev-parse --verify refs/remotes/<remote>/<branch>` for `names[index]`.
    Probe { names: Vec<String>, index: usize },
    /// `branch --set-upstream-to <remote>/<branch> <branch>`.
    SetUpstream,
    /// `switch -c <last path piece> <branch>` (the switch failed).
    Create,
    Finished,
}

pub enum CheckoutStageV {
    Switch,
    Remotes,
    Probe(Seq<Seq<char>>, int),
    SetUpstream,
    Create,
    Finished,
}

impl View for CheckoutStage {
    type V = CheckoutStageV;

    open spec fn view(&self) -> CheckoutStageV {
        match self {
            CheckoutStage::Switch => CheckoutStageV::Switch,
            CheckoutStage::Remotes => CheckoutStageV::Remotes,
            CheckoutStage::Probe { names, index } => CheckoutStageV::Probe(strs(names@), *index as int),
            CheckoutStage::SetUpstream => CheckoutStageV::SetUpstream,
            CheckoutStage::Create => CheckoutStageV::Create,
            CheckoutStage::Finished => CheckoutStageV::Finished,
        }
    }
}

/// Switching to `branch`; a local branch gets the first remote's branch of
/// the same name as upstream, a remote branch gets a local branch named by
/// its last path piece.
pub struct Checkout {
    pub branch: String,
    pub stage: CheckoutStage,
}

/// The remote names of `git remote` output.
pub open spec fn remote_names(out: Seq<char>) -> Seq<Seq<char>> {
    lines(out).filter_map(
        |l: Seq<char>|
            if trim(l).len() > 0 {
                Some(trim(l))
            } else {
                None
            },
    )
}

pub open spec fn probe_args(remote: Seq<char>, branch: Seq<char>) -> Seq<Seq<char>> {
    seq!["rev-parse"@, "--verify"@, "refs/remotes/"@ + remote + "/"@ + branch]
}

pub open spec fn checkout_next(branch: Seq<char>, stage: CheckoutStageV, reply: Result<Seq<char>, GitErrorV>) -> (
    CheckoutStageV,
    GitStepV<Result<(), GitErrorV>>,
) {
    match stage {
        CheckoutStageV::Switch => match reply {
            Ok(_) => (CheckoutStageV::Remotes, GitStepV::Run(seq!["remote"@])),
            Err(_) => (
                CheckoutStageV::Create,
                GitStepV::Run(seq!["switch"@, "-c"@, after_last_char(branch, '/'), branch]),
            ),
        },
        CheckoutStageV::Remotes => match reply {
            Ok(out) => if remote_names(out).len() > 0 {
                (
                    CheckoutStageV::Probe(remote_names(out), 0),
                    GitStepV::Run(probe_args(remote_names(out)[0], branch)),
                )
            } else {
                (CheckoutStageV::Finished, GitStepV::Finish(Ok(())))
            },
            Err(_) => (CheckoutStageV::Finished, GitStepV::Finish(Ok(()))),
        },
        CheckoutStageV::Probe(names, i) => match reply {
            Ok(_) => (
                CheckoutStageV::SetUpstream,
                GitStepV::Run(
                    seq!["branch"@, "--set-upstream-to"@, names[i] + "/"@ + branch, branch],
                ),
            ),
            Err(_) => if i + 1 < names.len() {
                (
                    CheckoutStageV::Probe(names, i + 1),
                    GitStepV::Run(probe_args(names[i + 1], branch)),
                )
            } else {
                (CheckoutStageV::Finished, GitStepV::Finish(Ok(())))
            },
        },
        CheckoutStageV::Create => match reply {
            Ok(_) => (CheckoutStageV::Finished, GitStepV::Finish(Ok(()))),
            Err(e) => (CheckoutStageV::Finished, GitStepV::Finish(Err(e))),
        },
        _ => (CheckoutStageV::Finished, GitStepV::Finish(Ok(()))),
    }
}

/// A probe looks at one of its remotes.
pub open spec fn checkout_stage_ok(st: CheckoutStageV) -> bool {
    st matches CheckoutStageV::Probe(names, i) ==> 0 <= i < names.len()
}

/// Starts a checkout of `branch` (a valid ref name).
pub fn checkout(branch: &str) -> (r: Result<(Checkout, Vec<String>), GitError>)
    ensures
        ref_name_error(branch@) matches Some(e) ==> (r matches Err(x) && x@ == e),
        ref_name_error(branch@) is None ==> (r matches Ok(p) && p.0.branch@ == branch@
            && p.0.stage@ == CheckoutStageV::Switch && strs(p.1@) == seq![
            "switch"@,
            "--"@,
            branch@,
        ]),
{
    validate_ref_name(branch)?;
    let a = vec![arg("switch"), arg("--"), arg(branch)];
    assert(strs(a@) =~= seq!["switch"@, "--"@, branch@]);
    Ok((Checkout { branch: arg(branch), stage: CheckoutStage::Switch }, a))
}

fn remote_names_exec(out: &str) -> (r: Vec<String>)
    ensures
        strs(r@) == remote_names(out@),
{
    let v = chars_of(out);
    let ls = lines_exec(v.as_slice());
    let ghost sl = lines(out@);
    let mut r: Vec<String> = Vec::new();
    let mut i: usize = 0;
    assert(sl.take(0) =~= Seq::<Seq<char>>::empty());
    while i < ls.len()
        invariant
            i <= ls@.len() == sl.len(),
            sl == lines(out@),
            forall|k: int| 0 <= k < ls@.len() ==> #[trigger] ls@[k]@ == sl[k],
            strs(r@) == sl.take(i as int).filter_map(
                |l: Seq<char>|
                    if trim(l).len() > 0 {
                        Some(trim(l))
                    } else {
                        None
                    },
            ),
        decreases ls@.len() - i,
    {
        assert(sl.take(i + 1).drop_last() =~= sl.take(i as int));
        assert(sl.take(i + 1).last() == ls@[i as int]@);
        let t = trim_exec(ls[i].as_slice());
        if t.len() > 0 {
            let ghost prev = strs(r@);
            r.push(string_of_all(t.as_slice()));
            assert(strs(r@) =~= prev + seq![t@]);
        }
        i = i + 1;
    }
    assert(sl.take(i as int) =~= sl);
    r
}

fn probe_args_exec(remote: &str, branch: &str) -> (a: Vec<String>)
    ensures
        strs(a@) == probe_args(remote@, branch@),
{
    let mut v = chars_of("refs/remotes/");
    push_str(&mut v, remote);
    push_str(&mut v, "/");
    push_str(&mut v, branch);
    let a = vec![arg("rev-parse"), arg("--verify"), string_of_all(v.as_slice())];
    assert(strs(a@) =~= probe_args(remote@, branch@));
    a
}

impl Checkout {
    /// Takes the result of the last command and says what to do next.
    pub fn step(&mut self, reply: Result<String, GitError>) -> (s: GitStep<Result<(), GitError>>)
        requires
            checkout_stage_ok(old(self).stage@),
        ensures
            checkout_stage_ok(final(self).stage@),
            final(self).branch == old(self).branch,
            (final(self).stage@, step_unit(s)) == checkout_next(
                old(self).branch@,
                old(self).stage@,
                rv(reply),
            ),
    {
        let mut stage = CheckoutStage::Finished;
        std::mem::swap(&mut stage, &mut self.stage);
        let b = self.branch.as_str();
        match stage {
            CheckoutStage::Switch => match reply {
                Ok(_) => {
                    self.stage = CheckoutStage::Remotes;
                    let a = vec![arg("remote")];
                    assert(strs(a@) =~= seq!["remote"@]);
                    GitStep::Run(a)
                },
                Err(_) => {
                    self.stage = CheckoutStage::Create;
                    let bv = chars_of(b);
                    let local = after_last_char_exec(bv.as_slice(), '/');
                    let a = vec![arg("switch"), arg("-c"), string_of_all(local.as_slice()), arg(b)];
                    assert(strs(a@) =~= seq!["switch"@, "-c"@, after_last_char(b@, '/'), b@]);
                    GitStep::Run(a)
                },
            },
            CheckoutStage::Remotes => match reply {
                Ok(out) => {
                    let names = remote_names_exec(out.as_str());
                    if names.len() > 0 {
                        let a = probe_args_exec(names[0].as_str(), b);
                        self.stage = CheckoutStage::Probe { names, index: 0 };
                        GitStep::Run(a)
                    } else {
                        GitStep::Finish(Ok(()))
                    }
                },
                Err(_) => GitStep::Finish(Ok(())),
            },
            CheckoutStage::Probe { names, index } => match reply {
                Ok(_) => {
                    let ghost nv = strs(names@);
                    let up = cat(cat(names[index].as_str(), "/").as_str(), b);
                    let a = vec![arg("branch"), arg("--set-upstream-to"), up, arg(b)];
                    assert(strs(a@) =~= seq![
                        "branch"@,
                        "--set-upstream-to"@,
                        nv[index as int] + "/"@ + b@,
                        b@,
                    ]);
                    self.stage = CheckoutStage::SetUpstream;
                    GitStep::Run(a)
                },
                Err(_) => {
                    if names.len() - index > 1 {
                        let a = probe_args_exec(names[index + 1].as_str(), b);
                        self.stage = CheckoutStage::Probe { names, index: index + 1 };
                        GitStep::Run(a)
                    } else {
                        GitStep::Finish(Ok(()))
                    }
                },
            },
            CheckoutStage::Create => match reply {
                Ok(_) => GitStep::Finish(Ok(())),
                Err(e) => GitStep::Finish(Err(e)),
            },
            _ => GitStep::Finish(Ok(())),
        }
    }
}

// ---------------------------------------------------------------------------
// Reword
// ---------------------------------------------------------------------------

/// Where a reword stands.
pub enum RewordStage {
    /// `rev-parse HEAD`.
    Head,
    /// `commit --amend -m <message>` (the commit is `HEAD`).
    Amend,
    /// `rev-parse HEAD` after the amend.
    NewHead,
    /// `rev-parse <oid>^`.
    Parent,
    /// The interactive rebase that rewords the commit.
    Rebase { parent: String },
    /// `log --format=%H --ancestry-path <parent>..HEAD`.
    Find,
    Finished,
}

pub enum RewordStageV {
    Head,
    Amend,
    NewHead,
    Parent,
    Rebase(Seq<char>),
    Find(Seq<char>),
    Finished,
}

/// What to do next in a reword.
pub enum RewordStep {
    Git(Vec<String>),
    /// Run `git rebase -i <base>` with a sequence editor that turns the first
    /// `pick` into `reword` and an editor that writes `message`; hand back
    /// its result.
    Rebase { base: String, message: String },
    /// The new id of the reworded commit, or the error.
    Done(Result<String, GitError>),
}

pub enum RewordStepV {
    Git(Seq<Seq<char>>),
    Rebase(Seq<char>, Seq<char>),
    Done(Result<Seq<char>, GitErrorV>),
}

impl View for RewordStep {
    type V = RewordStepV;

    open spec fn view(&self) -> RewordStepV {
        match self {
            RewordStep::Git(a) => RewordStepV::Git(strs(a@)),
            RewordStep::Rebase { base, message } => RewordStepV::Rebase(base@, message@),
            RewordStep::Done(Ok(s)) => RewordStepV::Done(Ok(s@)),
            RewordStep::Done(Err(e)) => RewordStepV::Done(Err(e@)),
        }
    }
}

/// Changing the message of commit `oid`: `HEAD` is amended, an older
/// commit is reworded by an interactive rebase from its parent.
pub struct Reword {
    pub oid: String,
    pub message: String,
    pub stage: RewordStage,
    /// The parent of the commit, once known (the rebase keeps it).
    pub parent: String,
}

pub struct RewordV {
    pub oid: Seq<char>,
    pub message: Seq<char>,
    pub stage: RewordStageV,
}

impl View for Reword {
    type V = RewordV;

    open spec fn view(&self) -> RewordV {
        RewordV {
            oid: self.oid@,
            message: self.message@,
            stage: match self.stage {
                RewordStage::Head => RewordStageV::Head,
                RewordStage::Amend => RewordStageV::Amend,
                RewordStage::NewHead => RewordStageV::NewHead,
                RewordStage::Parent => RewordStageV::Parent,
                RewordStage::Rebase { parent } => RewordStageV::Rebase(parent@),
                RewordStage::Find => RewordStageV::Find(self.parent@),
                RewordStage::Finished => RewordStageV::Finished,
            },
        }
    }
}

/// The last line of `log` output, trimmed ("" when there is none): the
/// oldest commit of the ancestry path, the reworded one.
pub open spec fn last_line(out: Seq<char>) -> Seq<char> {
    if lines(out).len() > 0 {
        trim(lines(out).last())
    } else {
        Seq::empty()
    }
}

pub open spec fn reword_next(oid: Seq<char>, message: Seq<char>, stage: RewordStageV, reply: Result<Seq<char>, GitErrorV>) -> (
    RewordStageV,
    RewordStepV,
) {
    match reply {
        Err(e) => (RewordStageV::Finished, RewordStepV::Done(Err(e))),
        Ok(out) => match stage {
            RewordStageV::Head => if starts_with(trim(out), oid) || starts_with(oid, trim(out)) {
                (RewordStageV::Amend, RewordStepV::Git(seq!["commit"@, "--amend"@, "-m"@, message]))
            } else {
                (RewordStageV::Parent, RewordStepV::Git(seq!["rev-parse"@, oid + "^"@]))
            },
            RewordStageV::Amend => (RewordStageV::NewHead, RewordStepV::Git(seq!["rev-parse"@, "HEAD"@])),
            RewordStageV::NewHead => (RewordStageV::Finished, RewordStepV::Done(Ok(trim(out)))),
            RewordStageV::Parent => (
                RewordStageV::Rebase(trim(out)),
                RewordStepV::Rebase(oid + "^"@, message),
            ),
            RewordStageV::Rebase(parent) => (
                RewordStageV::Find(parent),
                RewordStepV::Git(
                    seq!["log"@, "--format=%H"@, "--ancestry-path"@, parent + "..HEAD"@],
                ),
            ),
            RewordStageV::Find(_) => (RewordStageV::Finished, RewordStepV::Done(Ok(last_line(out)))),
            RewordStageV::Finished => (RewordStageV::Finished, RewordStepV::Done(Ok(Seq::empty()))),
        },
    }
}

/// Starts the reword of `oid` with `message`: the first command to run.
pub fn reword_commit(oid: &str, message: &str) -> (r: (Reword, Vec<String>))
    ensures
        r.0@ == (RewordV { oid: oid@, message: message@, stage: RewordStageV::Head }),
        strs(r.1@) == seq!["rev-parse"@, "HEAD"@],
{
    let a = vec![arg("rev-parse"), arg("HEAD")];
    assert(strs(a@) =~= seq!["rev-parse"@, "HEAD"@]);
    (Reword { oid: arg(oid), message: arg(message), stage: RewordStage::Head, parent: String::new() }, a)
}

/// The sequence editor of the rebase: the first `pick` becomes `reword`.
pub fn reword_sequence_script() -> (r: String)
    ensures
        r@ == "#!/bin/sh\nsed -i '1s/^pick/reword/' \"$1\"\n"@,
{
    arg("#!/bin/sh\nsed -i '1s/^pick/reword/' \"$1\"\n")
}

/// The editor of the rebase: it copies the message file over the one git
/// opens.
pub fn reword_editor_script(msg_path: &str) -> (r: String)
    ensures
        r@ == "#!/bin/sh\ncp '"@ + msg_path@ + "' \"$1\"\n"@,
{
    let mut v = chars_of("#!/bin/sh\ncp '");
    push_str(&mut v, msg_path);
    push_str(&mut v, "' \"$1\"\n");
    string_of_all(v.as_slice())
}

impl Reword {
    /// Takes the result of the last command (or of the rebase) and says what
    /// to do next.
    pub fn step(&mut self, reply: Result<String, GitError>) -> (s: RewordStep)
        ensures
            final(self)@.oid == old(self)@.oid,
            final(self)@.message == old(self)@.message,
            (final(self)@.stage, s@) == reword_next(
                old(self)@.oid,
                old(self)@.message,
                old(self)@.stage,
                rv(reply),
            ),
    {
        let mut stage = RewordStage::Finished;
        std::mem::swap(&mut stage, &mut self.stage);
        match reply {
            Err(e) => RewordStep::Done(Err(e)),
            Ok(out) => match stage {
                RewordStage::Head => {
                    let h = chars_of(out.as_str());
                    let head = trim_exec(h.as_slice());
                    let o = chars_of(self.oid.as_str());
                    if starts_with_exec(head.as_slice(), o.as_slice()) || starts_with_exec(
                        o.as_slice(),
                        head.as_slice(),
                    ) {
                        self.stage = RewordStage::Amend;
                        let a = vec![arg("commit"), arg("--amend"), arg("-m"), self.message.clone()];
                        assert(strs(a@) =~= seq!["commit"@, "--amend"@, "-m"@, self.message@]);
                        RewordStep::Git(a)
                    } else {
                        self.stage = RewordStage::Parent;
                        let a = vec![arg("rev-parse"), cat(self.oid.as_str(), "^")];
                        assert(strs(a@) =~= seq!["rev-parse"@, self.oid@ + "^"@]);
                        RewordStep::Git(a)
                    }
                },
                RewordStage::Amend => {
                    self.stage = RewordStage::NewHead;
                    let a = vec![arg("rev-parse"), arg("HEAD")];
                    assert(strs(a@) =~= seq!["rev-parse"@, "HEAD"@]);
                    RewordStep::Git(a)
                },
                RewordStage::NewHead => RewordStep::Done(Ok(trimmed(out.as_str()))),
                RewordStage::Parent => {
                    self.stage = RewordStage::Rebase { parent: trimmed(out.as_str()) };
                    RewordStep::Rebase {
                        base: cat(self.oid.as_str(), "^"),
                        message: self.message.clone(),
                    }
                },
                RewordStage::Rebase { parent } => {
                    let a = vec![
                        arg("log"),
                        arg("--format=%H"),
                        arg("--ancestry-path"),
                        cat(parent.as_str(), "..HEAD"),
                    ];
                    assert(strs(a@) =~= seq![
                        "log"@,
                        "--format=%H"@,
                        "--ancestry-path"@,
                        parent@ + "..HEAD"@,
                    ]);
                    self.parent = parent;
                    self.stage = RewordStage::Find;
                    RewordStep::Git(a)
                },
                RewordStage::Find => {
                    let v = chars_of(out.as_str());
                    let ls = lines_exec(v.as_slice());
                    if ls.len() > 0 {
                        let t = trim_exec(ls[ls.len() - 1].as_slice());
                        RewordStep::Done(Ok(string_of_all(t.as_slice())))
                    } else {
                        RewordStep::Done(Ok(String::new()))
                    }
                },
                RewordStage::Finished => RewordStep::Done(Ok(String::new())),
            },
        }
    }
}

} // verus!
