use gitstream::git::diagnose::{diagnose_sync, situation, SyncAction};
use gitstream::git::error::{classify_git_error, GitError};
use gitstream::git::flow::{checkout, reword_commit, reword_editor_script, squash, GitStep, RewordStep};
use gitstream::git::history::{file_log, head_probe, log, log_args, repo_info};
use gitstream::git::mutation::{delete, remove};

fn fail() -> GitError {
    classify_git_error("fatal: something went wrong")
}

fn run_args<T>(s: GitStep<T>) -> Vec<String> {
    match s {
        GitStep::Run(a) => a,
        GitStep::Finish(_) => panic!("expected a command"),
    }
}

#[test]
fn in_sync_branch_needs_no_remedy() {
    let (mut d, first) = diagnose_sync("origin", "main");
    assert_eq!(first, vec!["rev-parse", "--verify", "--quiet", "origin/main"]);
    match d.step(Some("abc\n")) {
        SyncAction::Git(a) => assert_eq!(a, vec!["rev-parse", "HEAD"]),
        _ => panic!(),
    }
    assert!(matches!(d.step(Some("abc\n")), SyncAction::Done(None)));
}

#[test]
fn missing_remote_ref_needs_no_remedy() {
    let (mut d, _) = diagnose_sync("origin", "main");
    assert!(matches!(d.step(None), SyncAction::Done(None)));
    let (mut d2, _) = diagnose_sync("origin", "main");
    assert!(matches!(d2.step(Some("  \n")), SyncAction::Done(None)));
}

#[test]
fn rewritten_tip_recommends_force_with_lease() {
    let (mut d, _) = diagnose_sync("origin", "main");
    d.step(Some("r1\n"));
    match d.step(Some("h1\n")) {
        SyncAction::Git(a) => assert_eq!(a, vec!["rev-list", "--left-right", "--count", "h1...origin/main"]),
        _ => panic!(),
    }
    match d.step(Some("1\t1\n")) {
        SyncAction::Git(a) => assert_eq!(a, vec!["rev-parse", "h1^{tree}"]),
        _ => panic!(),
    }
    match d.step(Some("t\n")) {
        SyncAction::Git(a) => assert_eq!(a, vec!["rev-parse", "origin/main^{tree}"]),
        _ => panic!(),
    }
    match d.step(Some("t\n")) {
        SyncAction::Done(Some(s)) => {
            assert_eq!(s.id, "diverged_rewrite");
            assert!(s.remedies.iter().any(|r| r.id == "push_force_lease" && r.recommended));
            assert_eq!((s.ahead, s.behind), (1, 1));
        }
        _ => panic!(),
    }
}

#[test]
fn divergence_recommends_pull_and_nothing_behind_is_fine() {
    let (mut d, _) = diagnose_sync("origin", "main");
    d.step(Some("r1"));
    d.step(Some("h1"));
    d.step(Some("2 3"));
    d.step(Some("t1"));
    match d.step(Some("t2")) {
        SyncAction::Done(Some(s)) => {
            assert_eq!(s.id, "diverged");
            assert!(s.remedies.iter().any(|r| r.id == "pull_rebase" && r.recommended));
            assert_eq!((s.ahead, s.behind), (2, 3));
        }
        _ => panic!(),
    }
    let (mut e, _) = diagnose_sync("origin", "main");
    e.step(Some("r1"));
    e.step(Some("h1"));
    assert!(matches!(e.step(Some("4\t0")), SyncAction::Done(None)));
    assert_eq!(situation(false, 0, 1).remedies.len(), 3);
}

#[test]
fn squash_resets_to_parent_of_oldest() {
    assert!(squash(&vec!["a".to_string()], "m").is_err());
    let (mut s, first) = squash(&vec!["new".to_string(), "old".to_string()], "msg").unwrap();
    assert_eq!(first, vec!["rev-parse", "old^"]);
    assert_eq!(run_args(s.step(Ok("p0 \n".to_string()))), vec!["reset", "--soft", "p0"]);
    assert_eq!(run_args(s.step(Ok(String::new()))), vec!["commit", "-m", "msg"]);
    assert!(matches!(s.step(Ok(String::new())), GitStep::Finish(Ok(()))));
    let (mut s2, _) = squash(&vec!["n".to_string(), "o".to_string()], "m").unwrap();
    assert!(matches!(s2.step(Err(fail())), GitStep::Finish(Err(_))));
}

#[test]
fn checkout_tracks_first_remote_with_branch() {
    assert!(checkout("-x").is_err());
    let (mut c, first) = checkout("feature").unwrap();
    assert_eq!(first, vec!["switch", "--", "feature"]);
    assert_eq!(run_args(c.step(Ok(String::new()))), vec!["remote"]);
    assert_eq!(
        run_args(c.step(Ok("origin\nupstream\n".to_string()))),
        vec!["rev-parse", "--verify", "refs/remotes/origin/feature"]
    );
    assert_eq!(
        run_args(c.step(Err(fail()))),
        vec!["rev-parse", "--verify", "refs/remotes/upstream/feature"]
    );
    assert_eq!(
        run_args(c.step(Ok("x".to_string()))),
        vec!["branch", "--set-upstream-to", "upstream/feature", "feature"]
    );
    assert!(matches!(c.step(Ok(String::new())), GitStep::Finish(Ok(()))));
}

#[test]
fn checkout_of_remote_branch_creates_local_one() {
    let (mut c, _) = checkout("origin/topic/x").unwrap();
    assert_eq!(run_args(c.step(Err(fail()))), vec!["switch", "-c", "x", "origin/topic/x"]);
    assert!(matches!(c.step(Err(fail())), GitStep::Finish(Err(_))));
}

#[test]
fn reword_of_head_amends() {
    let (mut r, first) = reword_commit("abc", "new msg");
    assert_eq!(first, vec!["rev-parse", "HEAD"]);
    match r.step(Ok("abcdef\n".to_string())) {
        RewordStep::Git(a) => assert_eq!(a, vec!["commit", "--amend", "-m", "new msg"]),
        _ => panic!(),
    }
    match r.step(Ok(String::new())) {
        RewordStep::Git(a) => assert_eq!(a, vec!["rev-parse", "HEAD"]),
        _ => panic!(),
    }
    match r.step(Ok("fff\n".to_string())) {
        RewordStep::Done(Ok(o)) => assert_eq!(o, "fff"),
        _ => panic!(),
    }
}

#[test]
fn reword_of_older_commit_rebases() {
    let (mut r, _) = reword_commit("old", "m");
    match r.step(Ok("head\n".to_string())) {
        RewordStep::Git(a) => assert_eq!(a, vec!["rev-parse", "old^"]),
        _ => panic!(),
    }
    match r.step(Ok("par\n".to_string())) {
        RewordStep::Rebase { base, message } => {
            assert_eq!(base, "old^");
            assert_eq!(message, "m");
        }
        _ => panic!(),
    }
    match r.step(Ok(String::new())) {
        RewordStep::Git(a) => assert_eq!(a, vec!["log", "--format=%H", "--ancestry-path", "par..HEAD"]),
        _ => panic!(),
    }
    match r.step(Ok("n3\nn2\nn1\n".to_string())) {
        RewordStep::Done(Ok(o)) => assert_eq!(o, "n1"),
        _ => panic!(),
    }
    assert_eq!(reword_editor_script("/tmp/m.txt"), "#!/bin/sh\ncp '/tmp/m.txt' \"$1\"\n");
}

#[test]
fn log_of_empty_repository_is_empty() {
    assert_eq!(head_probe(), vec!["rev-parse", "--verify", "--quiet", "HEAD"]);
    assert!(log(false, Err(fail()), None, None).unwrap().is_empty());
    assert!(log(true, Err(fail()), None, None).is_err());
    assert_eq!(log_args(5)[6], "-5");
}

#[test]
fn log_places_commits_and_marks_unpushed() {
    let rec = |oid: &str, parents: &str, refs: &str| {
        format!("\x1e{}\x00{}\x00A\x00a@x\x002024-01-01T00:00:00+00:00\x00{}\x00{}\x00msg\n", oid, &oid[..2], parents, refs)
    };
    let out = format!("{}{}", rec("c2c2", "c1c1", "HEAD -> main"), rec("c1c1", "", "origin/main"));
    let commits = log(true, Ok(out.clone()), Some("origin\n"), Some("c2c2\n")).unwrap();
    assert_eq!(commits.len(), 2);
    assert!(commits[0].unpushed);
    assert!(!commits[1].unpushed);
    assert_eq!(commits[0].column, 0);
    assert_eq!(commits[1].column, 0);
    let flat = file_log(true, Ok(out), None, None).unwrap();
    assert_eq!(flat.len(), 2);
    assert!(flat[0].lines.is_empty());
}

#[test]
fn repo_info_trims_and_tolerates_missing_head() {
    let i = repo_info(Ok("/r\n".into()), Ok("main\n".into()), Err(fail())).unwrap();
    assert_eq!((i.path.as_str(), i.current_branch.as_str(), i.head_oid.as_str()), ("/r", "main", ""));
    assert!(repo_info(Err(fail()), Ok("main".into()), Ok("h".into())).is_err());
}

#[test]
fn remove_and_delete_check_paths() {
    let files = vec!["a.txt".to_string(), "d/b.txt".to_string()];
    let (batch, each) = remove(&files).unwrap();
    assert_eq!(batch, vec!["rm", "--", "a.txt", "d/b.txt"]);
    assert_eq!(each[1], vec!["rm", "--", "d/b.txt"]);
    assert!(remove(&vec!["../x".to_string()]).is_err());
    assert!(delete(&files).is_ok());
    match delete(&vec!["ok".to_string(), "/etc/passwd".to_string()]) {
        Err(e) => assert_eq!(e.message(), "Absolute path not allowed: '/etc/passwd'"),
        Ok(()) => panic!(),
    }
}

#[test]
fn upper_case_errors_are_classified() {
    match classify_git_error("FATAL: AUTHENTICATION FAILED") {
        GitError::AuthenticationFailed(_) => {}
        _ => panic!("lower-casing decides the class"),
    }
}
