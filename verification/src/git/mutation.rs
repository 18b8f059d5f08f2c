//! Commands that change a repository: argument lists for `git`, the checks
//! on user-given names and paths, and the decisions of the multi-step
//! operations.
use vstd::prelude::*;
use super::error::{
    GitError, GitErrorV,
};
pub use super::hunk::{
    apply_lines, apply_patch, build_partial_patch, discard_hunk, parse_hunk_header, rebuild_hunk,
    stage_hunk, unstage_hunk, LineHunkSelection, LineOp, PatchCommand,
};
use super::hunk::{
    arg, strs,
};
use crate::path::{
    is_absolute_exec, is_absolute_path, path_pieces, path_pieces_exec, platform_style, PathStyle,
};
use crate::text::{
    chars_of, string_of_all, push_dec, push_str, dec,
};

verus! {

/// `files` appended to `args`.
fn push_files(args: &mut Vec<String>, files: &[String])
    ensures
        strs(final(args)@) == strs(old(args)@) + strs(files@),
{
    let mut i: usize = 0;
    while i < files.len()
        invariant
            i <= files@.len(),
            strs(args@) == strs(old(args)@) + strs(files@.take(i as int)),
        decreases files@.len() - i,
    {
        let ghost prev = args@;
        args.push(files[i].clone());
        assert(strs(args@) =~= strs(prev).push(files@[i as int]@));
        assert(strs(files@.take(i + 1)) =~= strs(files@.take(i as int)).push(files@[i as int]@));
        assert(strs(args@) =~= strs(old(args)@) + strs(files@.take(i + 1)));
        i = i + 1;
    }
    assert(files@.take(files@.len() as int) =~= files@);
}

/// A path component `..` (a parent-directory step).
pub open spec fn has_parent_step(p: Seq<char>, style: PathStyle) -> bool {
    exists|i: int| 0 <= i < path_pieces(p, style).len() && path_pieces(p, style)[i] == ".."@
}

/// Accepted file paths stay inside the repository: relative, without `..`,
/// by the path rules of `style`.
pub open spec fn file_path_error(file: Seq<char>, style: PathStyle) -> Option<GitErrorV> {
    if is_absolute_path(file, style) {
        Some(
            GitErrorV::CommandFailed {
                message: "Absolute path not allowed: '"@ + file + "'"@,
                hint: Some("Пути к файлам должны быть относительными"@),
            },
        )
    } else if has_parent_step(file, style) {
        Some(
            GitErrorV::CommandFailed {
                message: "Path traversal not allowed: '"@ + file + "'"@,
                hint: Some("Пути должны находиться внутри репозитория"@),
            },
        )
    } else {
        None
    }
}

/// `r` is the outcome of the path check of `file` under `style`.
pub open spec fn path_checked(r: Result<(), GitError>, file: Seq<char>, style: PathStyle) -> bool {
    &&& file_path_error(file, style) is None ==> r is Ok
    &&& file_path_error(file, style) matches Some(e) ==> (r matches Err(x) && x@ == e)
}

fn quoted_message(prefix: &str, s: &str) -> (r: String)
    ensures
        r@ == prefix@ + s@ + "'"@,
{
    let mut v = chars_of(prefix);
    push_str(&mut v, s);
    push_str(&mut v, "'");
    string_of_all(v.as_slice())
}

/// Rejects absolute paths and paths with a `..` component, by the path
/// rules of `style`.
pub fn validate_file_path_in(file: &str, style: PathStyle) -> (r: Result<(), GitError>)
    ensures
        path_checked(r, file@, style),
{
    let v = chars_of(file);
    if is_absolute_exec(v.as_slice(), style) {
        return Err(
            GitError::CommandFailed {
                message: quoted_message("Absolute path not allowed: '", file),
                hint: Some(arg("Пути к файлам должны быть относительными")),
            },
        );
    }
    let parts = path_pieces_exec(v.as_slice(), style);
    let dots = chars_of("..");
    let mut i: usize = 0;
    while i < parts.len()
        invariant
            i <= parts@.len() == path_pieces(file@, style).len(),
            v@ == file@,
            !is_absolute_path(file@, style),
            dots@ == ".."@,
            forall|k: int| 0 <= k < parts@.len() ==> #[trigger] parts@[k]@ == path_pieces(file@, style)[k],
            forall|k: int| 0 <= k < i ==> path_pieces(file@, style)[k] != ".."@,
        decreases parts@.len() - i,
    {
        if crate::text::chars_eq(parts[i].as_slice(), dots.as_slice()) {
            assert(path_pieces(file@, style)[i as int] == ".."@);
            assert(has_parent_step(file@, style));
            return Err(
                GitError::CommandFailed {
                    message: quoted_message("Path traversal not allowed: '", file),
                    hint: Some(arg("Пути должны находиться внутри репозитория")),
                },
            );
        }
        i = i + 1;
    }
    Ok(())
}

/// Rejects absolute paths and paths with a `..` component by the path rules
/// of the platform that runs the library (Unix or Windows).
pub fn validate_file_path(file: &str) -> (r: Result<(), GitError>)
    ensures
        path_checked(r, file@, PathStyle::Unix) || path_checked(r, file@, PathStyle::Windows),
{
    validate_file_path_in(file, platform_style())
}

/// Ref names must be non-empty and must not start with `-`.
pub open spec fn ref_name_error(name: Seq<char>) -> Option<GitErrorV> {
    if name.len() == 0 {
        Some(GitErrorV::CommandFailed { message: "Ref name cannot be empty"@, hint: None })
    } else if name[0] == '-' {
        Some(
            GitErrorV::CommandFailed {
                message: "Invalid ref name: '"@ + name + "'"@,
                hint: Some("Имена веток и тегов не могут начинаться с '-'"@),
            },
        )
    } else {
        None
    }
}

/// Rejects empty names and names that Git would read as options.
pub fn validate_ref_name(name: &str) -> (r: Result<(), GitError>)
    ensures
        ref_name_error(name@) is None ==> r is Ok,
        ref_name_error(name@) matches Some(e) ==> (r matches Err(x) && x@ == e),
{
    let v = chars_of(name);
    if v.len() == 0 {
        return Err(GitError::CommandFailed { message: arg("Ref name cannot be empty"), hint: None });
    }
    if v[0] == '-' {
        return Err(
            GitError::CommandFailed {
                message: quoted_message("Invalid ref name: '", name),
                hint: Some(arg("Имена веток и тегов не могут начинаться с '-'")),
            },
        );
    }
    Ok(())
}

/// `git add -- <files>`.
pub fn stage(files: &[String]) -> (a: Vec<String>)
    ensures
        strs(a@) == seq!["add"@, "--"@] + strs(files@),
{
    let mut a = vec![arg("add"), arg("--")];
    assert(strs(a@) =~= seq!["add"@, "--"@]);
    push_files(&mut a, files);
    a
}

/// `git restore --staged -- <files>`.
pub fn unstage(files: &[String]) -> (a: Vec<String>)
    ensures
        strs(a@) == seq!["restore"@, "--staged"@, "--"@] + strs(files@),
{
    let mut a = vec![arg("restore"), arg("--staged"), arg("--")];
    assert(strs(a@) =~= seq!["restore"@, "--staged"@, "--"@]);
    push_files(&mut a, files);
    a
}

/// `git restore -- <files>`.
pub fn discard(files: &[String]) -> (a: Vec<String>)
    ensures
        strs(a@) == seq!["restore"@, "--"@] + strs(files@),
{
    let mut a = vec![arg("restore"), arg("--")];
    assert(strs(a@) =~= seq!["restore"@, "--"@]);
    push_files(&mut a, files);
    a
}

/// `git commit -m <message> [--amend]`.
pub fn commit(message: &str, amend: bool) -> (a: Vec<String>)
    ensures
        strs(a@) == if amend {
            seq!["commit"@, "-m"@, message@, "--amend"@]
        } else {
            seq!["commit"@, "-m"@, message@]
        },
{
    let mut a = vec![arg("commit"), arg("-m"), arg(message)];
    if amend {
        a.push(arg("--amend"));
    }
    assert(strs(a@) =~= if amend {
        seq!["commit"@, "-m"@, message@, "--amend"@]
    } else {
        seq!["commit"@, "-m"@, message@]
    });
    a
}

/// Checking out a remote branch: as a new tracking branch `local_name`, or
/// detached when there is none.
pub fn checkout_remote(remote_branch: &str, local_name: Option<&str>) -> (r: Result<
    Vec<String>,
    GitError,
>)
    ensures
        ref_name_error(remote_branch@) matches Some(e) ==> (r matches Err(x) && x@ == e),
        ref_name_error(remote_branch@) is None ==> match local_name {
            Some(l) => match ref_name_error(l@) {
                Some(e) => r matches Err(x) && x@ == e,
                None => r matches Ok(a) && strs(a@) == seq![
                    "switch"@,
                    "-c"@,
                    l@,
                    "--track"@,
                    remote_branch@,
                ],
            },
            None => r matches Ok(a) && strs(a@) == seq![
                "checkout"@,
                "--detach"@,
                remote_branch@,
            ],
        },
{
    validate_ref_name(remote_branch)?;
    match local_name {
        Some(local) => {
            validate_ref_name(local)?;
            let a = vec![arg("switch"), arg("-c"), arg(local), arg("--track"), arg(remote_branch)];
            assert(strs(a@) =~= seq!["switch"@, "-c"@, local@, "--track"@, remote_branch@]);
            Ok(a)
        },
        None => {
            let a = vec![arg("checkout"), arg("--detach"), arg(remote_branch)];
            assert(strs(a@) =~= seq!["checkout"@, "--detach"@, remote_branch@]);
            Ok(a)
        },
    }
}

/// `git merge <branch>`.
pub fn merge(branch: &str) -> (r: Result<Vec<String>, GitError>)
    ensures
        ref_name_error(branch@) matches Some(e) ==> (r matches Err(x) && x@ == e),
        ref_name_error(branch@) is None ==> (r matches Ok(a) && strs(a@) == seq!["merge"@, branch@]),
{
    validate_ref_name(branch)?;
    let a = vec![arg("merge"), arg(branch)];
    assert(strs(a@) =~= seq!["merge"@, branch@]);
    Ok(a)
}

/// Rebases the current branch onto `onto`, with no editor.
pub fn rebase(onto: &str) -> (r: Result<Vec<String>, GitError>)
    ensures
        ref_name_error(onto@) matches Some(e) ==> (r matches Err(x) && x@ == e),
        ref_name_error(onto@) is None ==> (r matches Ok(a) && strs(a@) == seq![
            "-c"@,
            "core.editor=true"@,
            "rebase"@,
            onto@,
        ]),
{
    validate_ref_name(onto)?;
    let a = vec![arg("-c"), arg("core.editor=true"), arg("rebase"), arg(onto)];
    assert(strs(a@) =~= seq!["-c"@, "core.editor=true"@, "rebase"@, onto@]);
    Ok(a)
}

/// The two commands that resolve a conflict in favour of `side`: check the
/// files out from that side, then mark them resolved. They run in order and
/// the first failure stops them.
pub open spec fn resolve_side_spec(files: Seq<Seq<char>>, side: Seq<char>) -> Seq<Seq<Seq<char>>> {
    seq![seq!["checkout"@, side, "--"@] + files, seq!["add"@, "--"@] + files]
}

fn resolve_side(files: &[String], side: &str) -> (r: Vec<Vec<String>>)
    ensures
        r@.len() == 2,
        strs(r@[0]@) == resolve_side_spec(strs(files@), side@)[0],
        strs(r@[1]@) == resolve_side_spec(strs(files@), side@)[1],
{
    let mut co = vec![arg("checkout"), arg(side), arg("--")];
    assert(strs(co@) =~= seq!["checkout"@, side@, "--"@]);
    push_files(&mut co, files);
    let add = stage(files);
    vec![co, add]
}

/// Resolves conflicts in `files` with our version.
pub fn accept_ours(files: &[String]) -> (r: Vec<Vec<String>>)
    ensures
        r@.len() == 2,
        strs(r@[0]@) == resolve_side_spec(strs(files@), "--ours"@)[0],
        strs(r@[1]@) == resolve_side_spec(strs(files@), "--ours"@)[1],
{
    resolve_side(files, "--ours")
}

/// Resolves conflicts in `files` with their version.
pub fn accept_theirs(files: &[String]) -> (r: Vec<Vec<String>>)
    ensures
        r@.len() == 2,
        strs(r@[0]@) == resolve_side_spec(strs(files@), "--theirs"@)[0],
        strs(r@[1]@) == resolve_side_spec(strs(files@), "--theirs"@)[1],
{
    resolve_side(files, "--theirs")
}

/// Aborting the operation in progress (`state` as `repo_state` reports it).
pub open spec fn op_abort_spec(state: Seq<char>) -> Seq<Seq<char>> {
    if state == "rebasing"@ {
        seq!["rebase"@, "--abort"@]
    } else if state == "cherry-picking"@ {
        seq!["cherry-pick"@, "--abort"@]
    } else if state == "reverting"@ {
        seq!["revert"@, "--abort"@]
    } else {
        seq!["merge"@, "--abort"@]
    }
}

fn is(v: &[char], lit: &str) -> (b: bool)
    ensures
        b == (v@ == lit@),
{
    let l = chars_of(lit);
    crate::text::chars_eq(v, l.as_slice())
}

/// Aborts the merge, rebase, cherry-pick or revert in progress.
pub fn op_abort(state: &str) -> (a: Vec<String>)
    ensures
        strs(a@) == op_abort_spec(state@),
{
    let s = chars_of(state);
    let a = if is(s.as_slice(), "rebasing") {
        vec![arg("rebase"), arg("--abort")]
    } else if is(s.as_slice(), "cherry-picking") {
        vec![arg("cherry-pick"), arg("--abort")]
    } else if is(s.as_slice(), "reverting") {
        vec![arg("revert"), arg("--abort")]
    } else {
        vec![arg("merge"), arg("--abort")]
    };
    assert(strs(a@) =~= op_abort_spec(state@));
    a
}

/// Continuing the operation in progress, with no editor.
pub open spec fn op_continue_spec(state: Seq<char>) -> Seq<Seq<char>> {
    if state == "rebasing"@ {
        seq!["-c"@, "core.editor=true"@, "rebase"@, "--continue"@]
    } else if state == "cherry-picking"@ {
        seq!["-c"@, "core.editor=true"@, "cherry-pick"@, "--continue"@]
    } else if state == "reverting"@ {
        seq!["-c"@, "core.editor=true"@, "revert"@, "--continue"@]
    } else {
        seq!["commit"@, "--no-edit"@]
    }
}

/// Continues the operation in progress after its conflicts are resolved.
pub fn op_continue(state: &str) -> (a: Vec<String>)
    ensures
        strs(a@) == op_continue_spec(state@),
{
    let s = chars_of(state);
    let a = if is(s.as_slice(), "rebasing") {
        vec![arg("-c"), arg("core.editor=true"), arg("rebase"), arg("--continue")]
    } else if is(s.as_slice(), "cherry-picking") {
        vec![arg("-c"), arg("core.editor=true"), arg("cherry-pick"), arg("--continue")]
    } else if is(s.as_slice(), "reverting") {
        vec![arg("-c"), arg("core.editor=true"), arg("revert"), arg("--continue")]
    } else {
        vec![arg("commit"), arg("--no-edit")]
    };
    assert(strs(a@) =~= op_continue_spec(state@));
    a
}

/// The flag of `git reset` for a mode: `soft`, `hard`, anything else mixed.
pub open spec fn reset_flag(mode: Seq<char>) -> Seq<char> {
    if mode == "soft"@ {
        "--soft"@
    } else if mode == "hard"@ {
        "--hard"@
    } else {
        "--mixed"@
    }
}

/// `git reset --soft|--mixed|--hard <oid>`.
pub fn reset(oid: &str, mode: &str) -> (a: Vec<String>)
    ensures
        strs(a@) == seq!["reset"@, reset_flag(mode@), oid@],
{
    let m = chars_of(mode);
    let flag = if is(m.as_slice(), "soft") {
        arg("--soft")
    } else if is(m.as_slice(), "hard") {
        arg("--hard")
    } else {
        arg("--mixed")
    };
    let a = vec![arg("reset"), flag, arg(oid)];
    assert(strs(a@) =~= seq!["reset"@, reset_flag(mode@), oid@]);
    a
}

/// `git revert --no-edit [--no-commit] <oid>`.
pub fn revert(oid: &str, no_commit: bool) -> (a: Vec<String>)
    ensures
        strs(a@) == if no_commit {
            seq!["revert"@, "--no-edit"@, "--no-commit"@, oid@]
        } else {
            seq!["revert"@, "--no-edit"@, oid@]
        },
{
    let mut a = vec![arg("revert"), arg("--no-edit")];
    if no_commit {
        a.push(arg("--no-commit"));
    }
    a.push(arg(oid));
    assert(strs(a@) =~= if no_commit {
        seq!["revert"@, "--no-edit"@, "--no-commit"@, oid@]
    } else {
        seq!["revert"@, "--no-edit"@, oid@]
    });
    a
}

/// `git cherry-pick <oid>`.
pub fn cherry_pick(oid: &str) -> (a: Vec<String>)
    ensures
        strs(a@) == seq!["cherry-pick"@, oid@],
{
    let a = vec![arg("cherry-pick"), arg(oid)];
    assert(strs(a@) =~= seq!["cherry-pick"@, oid@]);
    a
}

/// `stash@{<index>}`.
pub open spec fn stash_ref_spec(index: nat) -> Seq<char> {
    "stash@{"@ + dec(index) + "}"@
}

pub fn stash_ref(index: usize) -> (r: String)
    ensures
        r@ == stash_ref_spec(index as nat),
{
    let mut v = chars_of("stash@{");
    push_dec(&mut v, index as u64);
    push_str(&mut v, "}");
    string_of_all(v.as_slice())
}

/// `git stash push [--include-untracked] [-m <message>]` (an empty message is
/// not passed).
pub open spec fn stash_save_spec(message: Option<Seq<char>>, include_untracked: bool) -> Seq<
    Seq<char>,
> {
    let base = seq!["stash"@, "push"@];
    let u = if include_untracked {
        base.push("--include-untracked"@)
    } else {
        base
    };
    match message {
        Some(m) => if m.len() > 0 {
            u + seq!["-m"@, m]
        } else {
            u
        },
        None => u,
    }
}

pub open spec fn opt_str_view(o: Option<&str>) -> Option<Seq<char>> {
    match o {
        Some(s) => Some(s@),
        None => None,
    }
}

pub fn stash_save(message: Option<&str>, include_untracked: bool) -> (a: Vec<String>)
    ensures
        strs(a@) == stash_save_spec(opt_str_view(message), include_untracked),
{
    let mut a = vec![arg("stash"), arg("push")];
    if include_untracked {
        a.push(arg("--include-untracked"));
    }
    if let Some(msg) = message {
        let mv = chars_of(msg);
        if mv.len() > 0 {
            a.push(arg("-m"));
            a.push(arg(msg));
        }
    }
    assert(strs(a@) =~= stash_save_spec(opt_str_view(message), include_untracked));
    a
}

/// `git stash apply stash@{<index>}`.
pub fn stash_apply(index: usize) -> (a: Vec<String>)
    ensures
        strs(a@) == seq!["stash"@, "apply"@, stash_ref_spec(index as nat)],
{
    let a = vec![arg("stash"), arg("apply"), stash_ref(index)];
    assert(strs(a@) =~= seq!["stash"@, "apply"@, stash_ref_spec(index as nat)]);
    a
}

/// `git stash pop stash@{<index>}`.
pub fn stash_pop(index: usize) -> (a: Vec<String>)
    ensures
        strs(a@) == seq!["stash"@, "pop"@, stash_ref_spec(index as nat)],
{
    let a = vec![arg("stash"), arg("pop"), stash_ref(index)];
    assert(strs(a@) =~= seq!["stash"@, "pop"@, stash_ref_spec(index as nat)]);
    a
}

/// `git stash drop stash@{<index>}`.
pub fn stash_drop(index: usize) -> (a: Vec<String>)
    ensures
        strs(a@) == seq!["stash"@, "drop"@, stash_ref_spec(index as nat)],
{
    let a = vec![arg("stash"), arg("drop"), stash_ref(index)];
    assert(strs(a@) =~= seq!["stash"@, "drop"@, stash_ref_spec(index as nat)]);
    a
}

/// A start point is used only when present and non-empty.
pub open spec fn start_point_of(start_point: Option<Seq<char>>) -> Option<Seq<char>> {
    match start_point {
        Some(sp) => if sp.len() > 0 {
            Some(sp)
        } else {
            None
        },
        None => None,
    }
}

/// Creating a branch: `git switch -c <name> [<start>]` when it is checked
/// out, else `git branch <name> [<start>]`.
pub open spec fn create_branch_spec(name: Seq<char>, start_point: Option<Seq<char>>, checkout: bool) -> Result<
    Seq<Seq<char>>,
    GitErrorV,
> {
    match ref_name_error(name) {
        Some(e) => Err(e),
        None => match start_point_of(start_point) {
            Some(sp) => match ref_name_error(sp) {
                Some(e) => Err(e),
                None => Ok(
                    if checkout {
                        seq!["switch"@, "-c"@, name, sp]
                    } else {
                        seq!["branch"@, name, sp]
                    },
                ),
            },
            None => Ok(
                if checkout {
                    seq!["switch"@, "-c"@, name]
                } else {
                    seq!["branch"@, name]
                },
            ),
        },
    }
}

pub fn create_branch(name: &str, start_point: Option<&str>, checkout: bool) -> (r: Result<
    Vec<String>,
    GitError,
>)
    ensures
        create_branch_spec(name@, opt_str_view(start_point), checkout) matches Ok(s) ==> (r matches Ok(
            a,
        ) && strs(a@) == s),
        create_branch_spec(name@, opt_str_view(start_point), checkout) matches Err(e) ==> (r matches Err(
            x,
        ) && x@ == e),
{
    validate_ref_name(name)?;
    let mut sp_used: Option<&str> = None;
    if let Some(sp) = start_point {
        let spv = chars_of(sp);
        if spv.len() > 0 {
            validate_ref_name(sp)?;
            sp_used = Some(sp);
        }
    }
    let mut a = if checkout {
        vec![arg("switch"), arg("-c"), arg(name)]
    } else {
        vec![arg("branch"), arg(name)]
    };
    if let Some(sp) = sp_used {
        a.push(arg(sp));
    }
    assert(create_branch_spec(name@, opt_str_view(start_point), checkout) matches Ok(s) && strs(a@)
        =~= s);
    Ok(a)
}

/// `git branch -m <old> <new>`.
pub fn rename_branch(old_name: &str, new_name: &str) -> (r: Result<Vec<String>, GitError>)
    ensures
        ref_name_error(old_name@) matches Some(e) ==> (r matches Err(x) && x@ == e),
        ref_name_error(old_name@) is None ==> match ref_name_error(new_name@) {
            Some(e) => r matches Err(x) && x@ == e,
            None => r matches Ok(a) && strs(a@) == seq!["branch"@, "-m"@, old_name@, new_name@],
        },
{
    validate_ref_name(old_name)?;
    validate_ref_name(new_name)?;
    let a = vec![arg("branch"), arg("-m"), arg(old_name), arg(new_name)];
    assert(strs(a@) =~= seq!["branch"@, "-m"@, old_name@, new_name@]);
    Ok(a)
}

/// `git branch -d|-D <branch>`.
pub fn delete_branch(branch: &str, force: bool) -> (r: Result<Vec<String>, GitError>)
    ensures
        ref_name_error(branch@) matches Some(e) ==> (r matches Err(x) && x@ == e),
        ref_name_error(branch@) is None ==> (r matches Ok(a) && strs(a@) == seq![
            "branch"@,
            if force {
                "-D"@
            } else {
                "-d"@
            },
            branch@,
        ]),
{
    validate_ref_name(branch)?;
    let flag = if force {
        arg("-D")
    } else {
        arg("-d")
    };
    let a = vec![arg("branch"), flag, arg(branch)];
    assert(strs(a@) =~= seq!["branch"@, if force { "-D"@ } else { "-d"@ }, branch@]);
    Ok(a)
}

/// `git tag [-f] [-a -m <message>] <name> [<target>]`.
pub open spec fn create_tag_args(name: Seq<char>, message: Option<Seq<char>>, target: Option<Seq<char>>, force: bool) -> Seq<
    Seq<char>,
> {
    let base = seq!["tag"@];
    let f = if force {
        base.push("-f"@)
    } else {
        base
    };
    let m = match message {
        Some(msg) => f + seq!["-a"@, "-m"@, msg],
        None => f,
    };
    let n = m.push(name);
    match target {
        Some(t) => n.push(t),
        None => n,
    }
}

pub fn create_tag(name: &str, message: Option<&str>, target: Option<&str>, force: bool) -> (r: Result<
    Vec<String>,
    GitError,
>)
    ensures
        ref_name_error(name@) matches Some(e) ==> (r matches Err(x) && x@ == e),
        ref_name_error(name@) is None ==> (r matches Ok(a) && strs(a@) == create_tag_args(
            name@,
            opt_str_view(message),
            opt_str_view(target),
            force,
        )),
{
    validate_ref_name(name)?;
    let mut a = vec![arg("tag")];
    if force {
        a.push(arg("-f"));
    }
    if let Some(msg) = message {
        a.push(arg("-a"));
        a.push(arg("-m"));
        a.push(arg(msg));
    }
    a.push(arg(name));
    if let Some(t) = target {
        a.push(arg(t));
    }
    assert(strs(a@) =~= create_tag_args(name@, opt_str_view(message), opt_str_view(target), force));
    Ok(a)
}

/// `git tag -d <name>`.
pub fn delete_tag(name: &str) -> (r: Result<Vec<String>, GitError>)
    ensures
        ref_name_error(name@) matches Some(e) ==> (r matches Err(x) && x@ == e),
        ref_name_error(name@) is None ==> (r matches Ok(a) && strs(a@) == seq!["tag"@, "-d"@, name@]),
{
    validate_ref_name(name)?;
    let a = vec![arg("tag"), arg("-d"), arg(name)];
    assert(strs(a@) =~= seq!["tag"@, "-d"@, name@]);
    Ok(a)
}

/// `git fetch <remote>`.
pub fn fetch_args(remote: &str) -> (a: Vec<String>)
    ensures
        strs(a@) == seq!["fetch"@, remote@],
{
    let a = vec![arg("fetch"), arg(remote)];
    assert(strs(a@) =~= seq!["fetch"@, remote@]);
    a
}

/// `git pull [--rebase] <remote>`: the remote's branch that the current
/// one tracks; see `pull_branch_args` to name the branch.
pub fn pull_args(remote: &str, rebase: bool) -> (a: Vec<String>)
    ensures
        strs(a@) == if rebase {
            seq!["pull"@, "--rebase"@, remote@]
        } else {
            seq!["pull"@, remote@]
        },
{
    let a = if rebase {
        vec![arg("pull"), arg("--rebase"), arg(remote)]
    } else {
        vec![arg("pull"), arg(remote)]
    };
    assert(strs(a@) =~= if rebase {
        seq!["pull"@, "--rebase"@, remote@]
    } else {
        seq!["pull"@, remote@]
    });
    a
}

/// `git push [--force] <remote>`: sets no upstream; see
/// `push_upstream_args` for a first push.
pub fn push_args(remote: &str, force: bool) -> (a: Vec<String>)
    ensures
        strs(a@) == if force {
            seq!["push"@, "--force"@, remote@]
        } else {
            seq!["push"@, remote@]
        },
{
    let a = if force {
        vec![arg("push"), arg("--force"), arg(remote)]
    } else {
        vec![arg("push"), arg(remote)]
    };
    assert(strs(a@) =~= if force {
        seq!["push"@, "--force"@, remote@]
    } else {
        seq!["push"@, remote@]
    });
    a
}

/// `git push [--force] <remote> <branch>`: sets no upstream; see
/// `push_upstream_args`.
pub fn push_branch_args(remote: &str, branch: &str, force: bool) -> (a: Vec<String>)
    ensures
        strs(a@) == if force {
            seq!["push"@, "--force"@, remote@, branch@]
        } else {
            seq!["push"@, remote@, branch@]
        },
{
    let a = if force {
        vec![arg("push"), arg("--force"), arg(remote), arg(branch)]
    } else {
        vec![arg("push"), arg(remote), arg(branch)]
    };
    assert(strs(a@) =~= if force {
        seq!["push"@, "--force"@, remote@, branch@]
    } else {
        seq!["push"@, remote@, branch@]
    });
    a
}

/// `git push <remote> refs/tags/<name>`, or `:refs/tags/<name>` to delete it.
pub fn push_tag_args(remote: &str, name: &str, delete: bool) -> (a: Vec<String>)
    ensures
        strs(a@) == seq![
            "push"@,
            remote@,
            if delete {
                ":refs/tags/"@ + name@
            } else {
                "refs/tags/"@ + name@
            },
        ],
{
    let mut spec_v = if delete {
        chars_of(":refs/tags/")
    } else {
        chars_of("refs/tags/")
    };
    push_str(&mut spec_v, name);
    let a = vec![arg("push"), arg(remote), string_of_all(spec_v.as_slice())];
    assert(strs(a@) =~= seq![
        "push"@,
        remote@,
        if delete { ":refs/tags/"@ + name@ } else { "refs/tags/"@ + name@ },
    ]);
    a
}

/// `git pull [--rebase] <remote> <branch>`: pulls the named branch, so that
/// a branch without an upstream can be pulled too.
pub fn pull_branch_args(remote: &str, branch: &str, rebase: bool) -> (a: Vec<String>)
    ensures
        strs(a@) == if rebase {
            seq!["pull"@, "--rebase"@, remote@, branch@]
        } else {
            seq!["pull"@, remote@, branch@]
        },
{
    let a = if rebase {
        vec![arg("pull"), arg("--rebase"), arg(remote), arg(branch)]
    } else {
        vec![arg("pull"), arg(remote), arg(branch)]
    };
    assert(strs(a@) =~= if rebase {
        seq!["pull"@, "--rebase"@, remote@, branch@]
    } else {
        seq!["pull"@, remote@, branch@]
    });
    a
}

/// `git push [--force] --set-upstream <remote> <branch>`: the push of the
/// toolbar and of a branch, which makes `<remote>/<branch>` the branch's
/// upstream on its first push.
pub fn push_upstream_args(remote: &str, branch: &str, force: bool) -> (a: Vec<String>)
    ensures
        strs(a@) == if force {
            seq!["push"@, "--force"@, "--set-upstream"@, remote@, branch@]
        } else {
            seq!["push"@, "--set-upstream"@, remote@, branch@]
        },
{
    let a = if force {
        vec![arg("push"), arg("--force"), arg("--set-upstream"), arg(remote), arg(branch)]
    } else {
        vec![arg("push"), arg("--set-upstream"), arg(remote), arg(branch)]
    };
    assert(strs(a@) =~= if force {
        seq!["push"@, "--force"@, "--set-upstream"@, remote@, branch@]
    } else {
        seq!["push"@, "--set-upstream"@, remote@, branch@]
    });
    a
}

/// The error of the first invalid path, if any.
pub open spec fn first_path_error(files: Seq<Seq<char>>, style: PathStyle) -> Option<GitErrorV>
    decreases files.len(),
{
    if files.len() == 0 {
        None
    } else {
        match file_path_error(files[0], style) {
            Some(e) => Some(e),
            None => first_path_error(files.drop_first(), style),
        }
    }
}

/// `r` is the outcome of checking every path of `files` under `style`.
pub open spec fn paths_checked(r: Result<(), GitError>, files: Seq<Seq<char>>, style: PathStyle) -> bool {
    &&& first_path_error(files, style) is None ==> r is Ok
    &&& first_path_error(files, style) matches Some(e) ==> (r matches Err(x) && x@ == e)
}

fn check_paths(files: &[String], style: PathStyle) -> (r: Result<(), GitError>)
    ensures
        first_path_error(strs(files@), style) is None ==> r is Ok,
        first_path_error(strs(files@), style) matches Some(e) ==> (r matches Err(x) && x@ == e),
{
    let ghost fs = strs(files@);
    let mut i: usize = 0;
    assert(fs.skip(0) =~= fs);
    while i < files.len()
        invariant
            i <= files@.len(),
            fs == strs(files@),
            first_path_error(fs, style) == first_path_error(fs.skip(i as int), style),
        decreases files@.len() - i,
    {
        assert(fs.skip(i as int)[0] == files@[i as int]@);
        assert(fs.skip(i as int).drop_first() =~= fs.skip(i + 1));
        validate_file_path_in(files[i].as_str(), style)?;
        i = i + 1;
    }
    Ok(())
}

/// `r` is what `git rm` of `files` amounts to under the path rules of
/// `style`: the first invalid path's error, or the batch command and the
/// one-file commands.
pub open spec fn remove_planned(
    r: Result<(Vec<String>, Vec<Vec<String>>), GitError>,
    files: Seq<String>,
    style: PathStyle,
) -> bool {
    &&& first_path_error(strs(files), style) matches Some(e) ==> (r matches Err(x) && x@ == e)
    &&& first_path_error(strs(files), style) is None ==> (r matches Ok(p) && strs(p.0@) == seq![
        "rm"@,
        "--"@,
    ] + strs(files) && p.1@.len() == files.len() && forall|i: int|
        0 <= i < files.len() ==> strs(#[trigger] p.1@[i]@) == seq!["rm"@, "--"@, files[i]@])
}

/// `git rm` of files: all at once (`rm -- <files>`); when that fails, each
/// on its own (`rm -- <file>`), and a file that git does not know is then
/// removed from disk by the caller. Every path must be valid first, by the
/// path rules of `style`.
pub fn remove_in(files: &[String], style: PathStyle) -> (r: Result<(Vec<String>, Vec<Vec<String>>), GitError>)
    ensures
        remove_planned(r, files@, style),
{
    check_paths(files, style)?;
    let mut batch = vec![arg("rm"), arg("--")];
    assert(strs(batch@) =~= seq!["rm"@, "--"@]);
    push_files(&mut batch, files);
    let mut each: Vec<Vec<String>> = Vec::new();
    let mut i: usize = 0;
    while i < files.len()
        invariant
            i <= files@.len(),
            each@.len() == i,
            forall|k: int| 0 <= k < i ==> strs(#[trigger] each@[k]@) == seq!["rm"@, "--"@, files@[k]@],
        decreases files@.len() - i,
    {
        let one = vec![arg("rm"), arg("--"), files[i].clone()];
        assert(strs(one@) =~= seq!["rm"@, "--"@, files@[i as int]@]);
        each.push(one);
        i = i + 1;
    }
    Ok((batch, each))
}

/// `remove_in` by the path rules of the platform that runs the library.
pub fn remove(files: &[String]) -> (r: Result<(Vec<String>, Vec<Vec<String>>), GitError>)
    ensures
        remove_planned(r, files@, PathStyle::Unix) || remove_planned(r, files@, PathStyle::Windows),
{
    remove_in(files, platform_style())
}

/// Deleting files from disk (done by the caller) is allowed only for paths
/// valid by the path rules of `style`.
pub fn delete_in(files: &[String], style: PathStyle) -> (r: Result<(), GitError>)
    ensures
        paths_checked(r, strs(files@), style),
{
    check_paths(files, style)
}

/// `delete_in` by the path rules of the platform that runs the library.
pub fn delete(files: &[String]) -> (r: Result<(), GitError>)
    ensures
        paths_checked(r, strs(files@), PathStyle::Unix) || paths_checked(r, strs(files@), PathStyle::Windows),
{
    delete_in(files, platform_style())
}

} // verus!
