//! The commit history (with its graph), the history of one file, and the
//! repository summary, from the answers of the git commands they need.
use vstd::prelude::*;
use super::error::{
    GitError,
};
use super::flow::rv;
use super::graph::{
    assign_lanes, layout, placed,
};
use super::hunk::{
    arg, strs,
};
use super::query::{
    parse_log_records, remotes, spec_log_records, spec_remotes, unpushed_set,
};
use super::types::{
    CommitInfo, CommitInfoV, RepoInfo, RepoInfoV,
};
use crate::text::{
    chars_of, dec, push_dec, split_ws, string_of_all, trim, trim_exec,
};

verus! {

/// The record format of the log: a record separator, then id, short id,
/// author, e-mail, date, parents, ref names and message, NUL-separated.
pub open spec fn log_format() -> Seq<char> {
    "--format=%x1e%H%x00%h%x00%an%x00%ae%x00%aI%x00%P%x00%D%x00%B"@
}

/// `rev-parse --verify --quiet HEAD`: does the repository have a commit?
pub open spec fn head_probe_args() -> Seq<Seq<char>> {
    seq!["rev-parse"@, "--verify"@, "--quiet"@, "HEAD"@]
}

/// Commits reachable from a local branch and from no remote-tracking one.
pub open spec fn unpushed_args() -> Seq<Seq<char>> {
    seq!["rev-list"@, "--branches"@, "--not"@, "--remotes"@]
}

/// All local and remote branches and `HEAD`, topologically, at most
/// `limit` commits.
pub open spec fn spec_log_args(limit: usize) -> Seq<Seq<char>> {
    seq![
        "log"@,
        "--branches"@,
        "--remotes"@,
        "HEAD"@,
        "--topo-order"@,
        log_format(),
        "-"@ + dec(limit as nat),
    ]
}

/// The history of `path`, following renames.
pub open spec fn spec_file_log_args(path: Seq<char>, limit: usize) -> Seq<Seq<char>> {
    seq!["log"@, "--follow"@, "--topo-order"@, log_format(), "-"@ + dec(limit as nat), "--"@, path]
}

pub fn head_probe() -> (a: Vec<String>)
    ensures
        strs(a@) == head_probe_args(),
{
    let a = vec![arg("rev-parse"), arg("--verify"), arg("--quiet"), arg("HEAD")];
    assert(strs(a@) =~= head_probe_args());
    a
}

pub fn unpushed() -> (a: Vec<String>)
    ensures
        strs(a@) == unpushed_args(),
{
    let a = vec![arg("rev-list"), arg("--branches"), arg("--not"), arg("--remotes")];
    assert(strs(a@) =~= unpushed_args());
    a
}

fn limit_arg(limit: usize) -> (r: String)
    ensures
        r@ == "-"@ + dec(limit as nat),
{
    let mut v = chars_of("-");
    push_dec(&mut v, limit as u64);
    string_of_all(v.as_slice())
}

pub fn log_args(limit: usize) -> (a: Vec<String>)
    ensures
        strs(a@) == spec_log_args(limit),
{
    let a = vec![
        arg("log"),
        arg("--branches"),
        arg("--remotes"),
        arg("HEAD"),
        arg("--topo-order"),
        arg("--format=%x1e%H%x00%h%x00%an%x00%ae%x00%aI%x00%P%x00%D%x00%B"),
        limit_arg(limit),
    ];
    assert(strs(a@) =~= spec_log_args(limit));
    a
}

pub fn file_log_args(path: &str, limit: usize) -> (a: Vec<String>)
    ensures
        strs(a@) == spec_file_log_args(path@, limit),
{
    let a = vec![
        arg("log"),
        arg("--follow"),
        arg("--topo-order"),
        arg("--format=%x1e%H%x00%h%x00%an%x00%ae%x00%aI%x00%P%x00%D%x00%B"),
        limit_arg(limit),
        arg("--"),
        arg(path),
    ];
    assert(strs(a@) =~= spec_file_log_args(path@, limit));
    a
}

pub open spec fn remotes_of(o: Option<Seq<char>>) -> Seq<Seq<char>> {
    match o {
        Some(out) => spec_remotes(out),
        None => Seq::empty(),
    }
}

pub open spec fn unpushed_of(o: Option<Seq<char>>) -> Seq<Seq<char>> {
    match o {
        Some(out) => split_ws(out),
        None => Seq::empty(),
    }
}

pub open spec fn os(o: Option<&str>) -> Option<Seq<char>> {
    match o {
        Some(s) => Some(s@),
        None => None,
    }
}

/// The commits of a log output, each placed in the graph.
pub open spec fn laid_out(cs: Seq<CommitInfoV>) -> Seq<CommitInfoV> {
    Seq::new(cs.len(), |i: int| placed(cs[i], layout(cs).1[i]))
}

pub open spec fn cviews(v: Seq<CommitInfo>) -> Seq<CommitInfoV> {
    v.map_values(|c: CommitInfo| c@)
}

fn records(output: &str, remotes_out: Option<&str>, unpushed_out: Option<&str>) -> (r: Vec<CommitInfo>)
    ensures
        cviews(r@) == spec_log_records(output@, remotes_of(os(remotes_out)), unpushed_of(os(unpushed_out))),
{
    let rs = match remotes_out {
        Some(o) => remotes(o),
        None => Vec::new(),
    };
    assert(rs@.map_values(|s: String| s@) =~= remotes_of(os(remotes_out)));
    let us = unpushed_set(unpushed_out);
    assert(us@.map_values(|s: String| s@) =~= unpushed_of(os(unpushed_out)));
    parse_log_records(output, rs.as_slice(), us.as_slice())
}

/// The history with its graph: empty when the repository has no commit
/// yet (`head_exists` is the answer of `head_probe`); else the log output
/// parsed (with the remote names and the unpushed commits, each empty when
/// its command failed) and laid out in lanes.
pub fn log(
    head_exists: bool,
    output: Result<String, GitError>,
    remotes_out: Option<&str>,
    unpushed_out: Option<&str>,
) -> (r: Result<Vec<CommitInfo>, GitError>)
    ensures
        !head_exists ==> (r matches Ok(v) && v@.len() == 0),
        head_exists ==> match rv(output) {
            Err(e) => r matches Err(x) && x@ == e,
            Ok(o) => r matches Ok(v) && cviews(v@) == laid_out(
                spec_log_records(o, remotes_of(os(remotes_out)), unpushed_of(os(unpushed_out))),
            ),
        },
{
    if !head_exists {
        return Ok(Vec::new());
    }
    let o = output?;
    let mut commits = records(o.as_str(), remotes_out, unpushed_out);
    let ghost before = cviews(commits@);
    assign_lanes(&mut commits);
    assert(cviews(commits@) =~= laid_out(before));
    Ok(commits)
}

/// The history of one file, without graph.
pub fn file_log(
    head_exists: bool,
    output: Result<String, GitError>,
    remotes_out: Option<&str>,
    unpushed_out: Option<&str>,
) -> (r: Result<Vec<CommitInfo>, GitError>)
    ensures
        !head_exists ==> (r matches Ok(v) && v@.len() == 0),
        head_exists ==> match rv(output) {
            Err(e) => r matches Err(x) && x@ == e,
            Ok(o) => r matches Ok(v) && cviews(v@) == spec_log_records(
                o,
                remotes_of(os(remotes_out)),
                unpushed_of(os(unpushed_out)),
            ),
        },
{
    if !head_exists {
        return Ok(Vec::new());
    }
    let o = output?;
    Ok(records(o.as_str(), remotes_out, unpushed_out))
}

/// `rev-parse --show-toplevel`, `branch --show-current`, `rev-parse HEAD`.
pub open spec fn repo_info_commands() -> Seq<Seq<Seq<char>>> {
    seq![
        seq!["rev-parse"@, "--show-toplevel"@],
        seq!["branch"@, "--show-current"@],
        seq!["rev-parse"@, "HEAD"@],
    ]
}

pub fn repo_info_args() -> (a: Vec<Vec<String>>)
    ensures
        a@.map_values(|x: Vec<String>| strs(x@)) == repo_info_commands(),
{
    let a = vec![
        vec![arg("rev-parse"), arg("--show-toplevel")],
        vec![arg("branch"), arg("--show-current")],
        vec![arg("rev-parse"), arg("HEAD")],
    ];
    assert(strs(a@[0]@) =~= seq!["rev-parse"@, "--show-toplevel"@]);
    assert(strs(a@[1]@) =~= seq!["branch"@, "--show-current"@]);
    assert(strs(a@[2]@) =~= seq!["rev-parse"@, "HEAD"@]);
    assert(a@.map_values(|x: Vec<String>| strs(x@)) =~= repo_info_commands());
    a
}

fn trimmed(s: &str) -> (r: String)
    ensures
        r@ == trim(s@),
{
    let v = chars_of(s);
    let t = trim_exec(v.as_slice());
    string_of_all(t.as_slice())
}

/// The repository summary from the three answers: the top level and the
/// branch are needed (their error is the result), the head id may be
/// missing (an empty repository).
pub fn repo_info(
    toplevel: Result<String, GitError>,
    branch: Result<String, GitError>,
    head: Result<String, GitError>,
) -> (r: Result<RepoInfo, GitError>)
    ensures
        match (rv(toplevel), rv(branch)) {
            (Err(e), _) => r matches Err(x) && x@ == e,
            (Ok(_), Err(e)) => r matches Err(x) && x@ == e,
            (Ok(p), Ok(b)) => r matches Ok(i) && i@ == RepoInfoV {
                path: trim(p),
                current_branch: trim(b),
                head_oid: match rv(head) {
                    Ok(h) => trim(h),
                    Err(_) => Seq::empty(),
                },
            },
        },
{
    let p = toplevel?;
    let b = branch?;
    let h = match head {
        Ok(h) => trimmed(h.as_str()),
        Err(_) => String::new(),
    };
    Ok(RepoInfo { path: trimmed(p.as_str()), current_branch: trimmed(b.as_str()), head_oid: h })
}

} // verus!
