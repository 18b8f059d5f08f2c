//! Recognising a local branch that diverged from its remote-tracking branch
//! (after a refused push) and proposing safe remedies.
//!
//! The diagnosis asks git a few questions in turn; `DiagnoseSync` decides
//! what to ask next from each answer, and the caller runs the commands.
use vstd::prelude::*;
use super::hunk::{
    arg, strs,
};
use crate::text::{
    chars_eq, chars_of, parse_unsigned, parse_unsigned_exec, push_str, split_ws, split_ws_exec,
    string_of_all, trim, trim_exec,
};

verus! {

/// One proposed remedy: `id` names the action ("push_force_lease",
/// "pull_rebase", "pull_merge", "fetch"), `danger` is "safe", "caution" or
/// "danger".
#[derive(Clone, Debug)]
pub struct Remedy {
    pub id: String,
    pub danger: String,
    pub recommended: bool,
}

/// A recognised situation: "diverged_rewrite" (the local tip rewrites a
/// pushed commit, force-with-lease is safe) or "diverged" (both sides have
/// their own commits).
#[derive(Clone, Debug)]
pub struct Situation {
    pub id: String,
    pub severity: String,
    pub ahead: u32,
    pub behind: u32,
    pub remedies: Vec<Remedy>,
}

pub struct RemedyV {
    pub id: Seq<char>,
    pub danger: Seq<char>,
    pub recommended: bool,
}

impl View for Remedy {
    type V = RemedyV;

    open spec fn view(&self) -> RemedyV {
        RemedyV { id: self.id@, danger: self.danger@, recommended: self.recommended }
    }
}

pub struct SituationV {
    pub id: Seq<char>,
    pub severity: Seq<char>,
    pub ahead: u32,
    pub behind: u32,
    pub remedies: Seq<RemedyV>,
}

impl View for Situation {
    type V = SituationV;

    open spec fn view(&self) -> SituationV {
        SituationV {
            id: self.id@,
            severity: self.severity@,
            ahead: self.ahead,
            behind: self.behind,
            remedies: self.remedies@.map_values(|r: Remedy| r@),
        }
    }
}

/// The situation once both sides are known to have diverged; `rewritten`:
/// the local tip has the same tree as the remote one.
pub open spec fn spec_situation(rewritten: bool, ahead: u32, behind: u32) -> SituationV {
    if rewritten {
        SituationV {
            id: "diverged_rewrite"@,
            severity: "warn"@,
            ahead,
            behind,
            remedies: seq![
                RemedyV { id: "push_force_lease"@, danger: "caution"@, recommended: true },
            ],
        }
    } else {
        SituationV {
            id: "diverged"@,
            severity: "warn"@,
            ahead,
            behind,
            remedies: seq![
                RemedyV { id: "pull_rebase"@, danger: "safe"@, recommended: true },
                RemedyV { id: "pull_merge"@, danger: "safe"@, recommended: false },
                RemedyV { id: "push_force_lease"@, danger: "danger"@, recommended: false },
            ],
        }
    }
}

fn remedy(id: &str, danger: &str, recommended: bool) -> (r: Remedy)
    ensures
        r@ == (RemedyV { id: id@, danger: danger@, recommended }),
{
    Remedy { id: arg(id), danger: arg(danger), recommended }
}

pub fn situation(rewritten: bool, ahead: u32, behind: u32) -> (s: Situation)
    ensures
        s@ == spec_situation(rewritten, ahead, behind),
{
    if rewritten {
        let remedies = vec![remedy("push_force_lease", "caution", true)];
        let s = Situation {
            id: arg("diverged_rewrite"),
            severity: arg("warn"),
            ahead,
            behind,
            remedies,
        };
        assert(s@.remedies =~= spec_situation(rewritten, ahead, behind).remedies);
        s
    } else {
        let remedies = vec![
            remedy("pull_rebase", "safe", true),
            remedy("pull_merge", "safe", false),
            remedy("push_force_lease", "danger", false),
        ];
        let s = Situation { id: arg("diverged"), severity: arg("warn"), ahead, behind, remedies };
        assert(s@.remedies =~= spec_situation(rewritten, ahead, behind).remedies);
        s
    }
}

/// Where the diagnosis stands: which answer it waits for.
pub enum DiagnoseStage {
    /// `rev-parse --verify --quiet <remote>/<branch>`.
    RemoteOid,
    /// `rev-parse HEAD`.
    HeadOid { remote_oid: String },
    /// `rev-list --left-right --count HEAD...<remote>/<branch>`.
    Counts { head_oid: String },
    /// `rev-parse <head>^{tree}`.
    HeadTree { ahead: u32, behind: u32 },
    /// `rev-parse <remote>/<branch>^{tree}`.
    RemoteTree { ahead: u32, behind: u32, head_tree: Option<String> },
    Finished,
}

pub enum StageV {
    RemoteOid,
    HeadOid(Seq<char>),
    Counts(Seq<char>),
    HeadTree(u32, u32),
    RemoteTree(u32, u32, Option<Seq<char>>),
    Finished,
}

pub open spec fn ov(o: Option<String>) -> Option<Seq<char>> {
    match o {
        Some(s) => Some(s@),
        None => None,
    }
}

impl View for DiagnoseStage {
    type V = StageV;

    open spec fn view(&self) -> StageV {
        match self {
            DiagnoseStage::RemoteOid => StageV::RemoteOid,
            DiagnoseStage::HeadOid { remote_oid } => StageV::HeadOid(remote_oid@),
            DiagnoseStage::Counts { head_oid } => StageV::Counts(head_oid@),
            DiagnoseStage::HeadTree { ahead, behind } => StageV::HeadTree(*ahead, *behind),
            DiagnoseStage::RemoteTree { ahead, behind, head_tree } => StageV::RemoteTree(
                *ahead,
                *behind,
                ov(*head_tree),
            ),
            DiagnoseStage::Finished => StageV::Finished,
        }
    }
}

/// The diagnosis of `<remote>/<branch>` against `HEAD`.
pub struct DiagnoseSync {
    pub remote_ref: String,
    pub stage: DiagnoseStage,
}

/// What to do next: run git with these arguments and hand back its trimmed
/// output (or `None` when it fails), or stop with the result.
pub enum SyncAction {
    Git(Vec<String>),
    Done(Option<Situation>),
}

pub enum SyncActionV {
    Git(Seq<Seq<char>>),
    Done(Option<SituationV>),
}

impl View for SyncAction {
    type V = SyncActionV;

    open spec fn view(&self) -> SyncActionV {
        match self {
            SyncAction::Git(a) => SyncActionV::Git(strs(a@)),
            SyncAction::Done(Some(s)) => SyncActionV::Done(Some(s@)),
            SyncAction::Done(None) => SyncActionV::Done(None),
        }
    }
}

pub open spec fn u32_or_zero(words: Seq<Seq<char>>, i: int) -> u32 {
    if i < words.len() {
        match parse_unsigned(words[i], u32::MAX as nat) {
            Some(v) => v as u32,
            None => 0,
        }
    } else {
        0
    }
}

/// One step: the stage after an answer, and what to do next. A failed
/// command or an empty remote id ends without a situation, as does a
/// `HEAD` equal to the remote tip or nothing to pull (`behind == 0`).
pub open spec fn diagnose_next(remote_ref: Seq<char>, stage: StageV, reply: Option<Seq<char>>) -> (
    StageV,
    SyncActionV,
) {
    match stage {
        StageV::RemoteOid => match reply {
            Some(out) => if trim(out).len() > 0 {
                (StageV::HeadOid(trim(out)), SyncActionV::Git(seq!["rev-parse"@, "HEAD"@]))
            } else {
                (StageV::Finished, SyncActionV::Done(None))
            },
            None => (StageV::Finished, SyncActionV::Done(None)),
        },
        StageV::HeadOid(remote_oid) => match reply {
            Some(out) => if trim(out) != remote_oid {
                (
                    StageV::Counts(trim(out)),
                    SyncActionV::Git(
                        seq![
                            "rev-list"@,
                            "--left-right"@,
                            "--count"@,
                            trim(out) + "..."@ + remote_ref,
                        ],
                    ),
                )
            } else {
                (StageV::Finished, SyncActionV::Done(None))
            },
            None => (StageV::Finished, SyncActionV::Done(None)),
        },
        StageV::Counts(head_oid) => match reply {
            Some(out) => if u32_or_zero(split_ws(trim(out)), 1) != 0 {
                (
                    StageV::HeadTree(
                        u32_or_zero(split_ws(trim(out)), 0),
                        u32_or_zero(split_ws(trim(out)), 1),
                    ),
                    SyncActionV::Git(seq!["rev-parse"@, head_oid + "^{tree}"@]),
                )
            } else {
                (StageV::Finished, SyncActionV::Done(None))
            },
            None => (StageV::Finished, SyncActionV::Done(None)),
        },
        StageV::HeadTree(ahead, behind) => (
            StageV::RemoteTree(
                ahead,
                behind,
                match reply {
                    Some(out) => Some(trim(out)),
                    None => None,
                },
            ),
            SyncActionV::Git(seq!["rev-parse"@, remote_ref + "^{tree}"@]),
        ),
        StageV::RemoteTree(ahead, behind, head_tree) => {
            let remote_tree = match reply {
                Some(out) => Some(trim(out)),
                None => None,
            };
            (
                StageV::Finished,
                SyncActionV::Done(
                    Some(
                        spec_situation(head_tree is Some && head_tree == remote_tree, ahead, behind),
                    ),
                ),
            )
        },
        StageV::Finished => (StageV::Finished, SyncActionV::Done(None)),
    }
}

fn with_suffix(a: &str, b: &str) -> (r: String)
    ensures
        r@ == a@ + b@,
{
    let mut v: Vec<char> = Vec::new();
    push_str(&mut v, a);
    push_str(&mut v, b);
    string_of_all(v.as_slice())
}

fn joined(a: &str, sep: &str, b: &str) -> (r: String)
    ensures
        r@ == a@ + sep@ + b@,
{
    let mut v: Vec<char> = Vec::new();
    push_str(&mut v, a);
    push_str(&mut v, sep);
    push_str(&mut v, b);
    string_of_all(v.as_slice())
}

fn u32_or_zero_exec(words: &Vec<Vec<char>>, i: usize) -> (r: u32)
    ensures
        r == u32_or_zero(words@.map_values(|w: Vec<char>| w@), i as int),
{
    if i < words.len() {
        match parse_unsigned_exec(words[i].as_slice(), u32::MAX as u64) {
            Some(v) => v as u32,
            None => 0,
        }
    } else {
        0
    }
}

/// Starts the diagnosis of `<remote>/<branch>` (asked after a refused push,
/// once the remote-tracking branch is fetched): the first command to run.
pub fn diagnose_sync(remote: &str, branch: &str) -> (r: (DiagnoseSync, Vec<String>))
    ensures
        r.0.remote_ref@ == remote@ + "/"@ + branch@,
        r.0.stage@ == StageV::RemoteOid,
        strs(r.1@) == seq!["rev-parse"@, "--verify"@, "--quiet"@, r.0.remote_ref@],
{
    let remote_ref = joined(remote, "/", branch);
    let args = vec![arg("rev-parse"), arg("--verify"), arg("--quiet"), remote_ref.clone()];
    assert(strs(args@) =~= seq!["rev-parse"@, "--verify"@, "--quiet"@, remote_ref@]);
    (DiagnoseSync { remote_ref, stage: DiagnoseStage::RemoteOid }, args)
}

impl DiagnoseSync {
    /// Takes the answer to the last command (its output, `None` when git
    /// failed) and says what to do next.
    pub fn step(&mut self, reply: Option<&str>) -> (a: SyncAction)
        ensures
            final(self).remote_ref@ == old(self).remote_ref@,
            (final(self).stage@, a@) == diagnose_next(
                old(self).remote_ref@,
                old(self).stage@,
                match reply {
                    Some(s) => Some(s@),
                    None => None,
                },
            ),
    {
        let trimmed: Option<Vec<char>> = match reply {
            Some(s) => {
                let v = chars_of(s);
                Some(trim_exec(v.as_slice()))
            },
            None => None,
        };
        let mut stage = DiagnoseStage::Finished;
        std::mem::swap(&mut stage, &mut self.stage);
        match stage {
            DiagnoseStage::RemoteOid => match trimmed {
                Some(t) => {
                    if t.len() > 0 {
                        self.stage = DiagnoseStage::HeadOid {
                            remote_oid: string_of_all(t.as_slice()),
                        };
                        let args = vec![arg("rev-parse"), arg("HEAD")];
                        assert(strs(args@) =~= seq!["rev-parse"@, "HEAD"@]);
                        SyncAction::Git(args)
                    } else {
                        SyncAction::Done(None)
                    }
                },
                None => SyncAction::Done(None),
            },
            DiagnoseStage::HeadOid { remote_oid } => match trimmed {
                Some(t) => {
                    let rv = chars_of(remote_oid.as_str());
                    if chars_eq(t.as_slice(), rv.as_slice()) {
                        SyncAction::Done(None)
                    } else {
                        let head = string_of_all(t.as_slice());
                        let range = joined(head.as_str(), "...", self.remote_ref.as_str());
                        self.stage = DiagnoseStage::Counts { head_oid: head };
                        let args = vec![arg("rev-list"), arg("--left-right"), arg("--count"), range];
                        assert(strs(args@) =~= seq![
                            "rev-list"@,
                            "--left-right"@,
                            "--count"@,
                            t@ + "..."@ + self.remote_ref@,
                        ]);
                        SyncAction::Git(args)
                    }
                },
                None => SyncAction::Done(None),
            },
            DiagnoseStage::Counts { head_oid } => match trimmed {
                Some(t) => {
                    let words = split_ws_exec(t.as_slice());
                    let ghost ws = words@.map_values(|w: Vec<char>| w@);
                    assert(ws =~= split_ws(t@));
                    let ahead = u32_or_zero_exec(&words, 0);
                    let behind = u32_or_zero_exec(&words, 1);
                    if behind == 0 {
                        SyncAction::Done(None)
                    } else {
                        let tree = with_suffix(head_oid.as_str(), "^{tree}");
                        self.stage = DiagnoseStage::HeadTree { ahead, behind };
                        let args = vec![arg("rev-parse"), tree];
                        assert(strs(args@) =~= seq!["rev-parse"@, head_oid@ + "^{tree}"@]);
                        SyncAction::Git(args)
                    }
                },
                None => SyncAction::Done(None),
            },
            DiagnoseStage::HeadTree { ahead, behind } => {
                let head_tree = match trimmed {
                    Some(t) => Some(string_of_all(t.as_slice())),
                    None => None,
                };
                let tree = with_suffix(self.remote_ref.as_str(), "^{tree}");
                self.stage = DiagnoseStage::RemoteTree { ahead, behind, head_tree };
                let args = vec![arg("rev-parse"), tree];
                assert(strs(args@) =~= seq!["rev-parse"@, self.remote_ref@ + "^{tree}"@]);
                SyncAction::Git(args)
            },
            DiagnoseStage::RemoteTree { ahead, behind, head_tree } => {
                let rewritten = match (&head_tree, &trimmed) {
                    (Some(h), Some(t)) => {
                        let hv = chars_of(h.as_str());
                        chars_eq(hv.as_slice(), t.as_slice())
                    },
                    _ => false,
                };
                SyncAction::Done(Some(situation(rewritten, ahead, behind)))
            },
            DiagnoseStage::Finished => SyncAction::Done(None),
        }
    }
}

/// Stages that remember counts carry a remote that is ahead.
pub open spec fn stage_ok(st: StageV) -> bool {
    match st {
        StageV::HeadTree(_, behind) => behind != 0,
        StageV::RemoteTree(_, behind, _) => behind != 0,
        _ => true,
    }
}

/// From the first stage on, every stage keeps `stage_ok`, and a reported
/// situation has a remote that is ahead (`behind >= 1`) and exactly one
/// recommended remedy, the first.
pub proof fn law_situation_needs_remote_ahead(remote_ref: Seq<char>, st: StageV, reply: Option<Seq<char>>)
    requires
        stage_ok(st),
    ensures
        stage_ok(diagnose_next(remote_ref, st, reply).0),
        diagnose_next(remote_ref, st, reply).1 matches SyncActionV::Done(Some(s)) ==> {
            &&& s.behind >= 1
            &&& s.remedies.len() >= 1
            &&& s.remedies[0].recommended
            &&& forall|i: int| 1 <= i < s.remedies.len() ==> !(#[trigger] s.remedies[i]).recommended
        },
{
}

} // verus!
