use std::collections::BTreeMap;

use wsp::attach::{next_attach_step, AttachFacts, AttachPlan, AttachStep, Probe};
use wsp::error::WsError;
use wsp::identity::parse_identity;
use wsp::lifecycle::{add_repos, create, TxnAction};
use wsp::log::{resolve_log_range, UpstreamRef};
use wsp::remove::{remove, RemoveOp, RemoveTxn, Reply};
use wsp::status::{detect, has_pending_changes, pending_changes_gate, repo_targets, RepoActivity};
use wsp::workspace::{dir, validate_name, Metadata, WorkspaceRepo, RepoRef, Timestamp, WorkspaceRepoRef};

fn ts() -> Timestamp {
    Timestamp { secs: 1_736_935_200, nanos: 0 }
}

fn meta(name: &str, repos: &[(&str, Option<&str>)]) -> Metadata {
    Metadata {
        name: name.into(),
        branch: name.into(),
        repos: repos
            .iter()
            .map(|(id, r)| WorkspaceRepo {
                identity: id.to_string(),
                pin: match r {
                    Some(x) => RepoRef::Context(x.to_string()),
                    None => RepoRef::Active,
                },
            })
            .collect(),
        created: ts(),
    }
}

fn refs(pairs: &[(&str, &str)]) -> Vec<(String, String)> {
    pairs.iter().map(|(a, b)| (a.to_string(), b.to_string())).collect()
}

/// Runs a removal against a scripted backend and returns the operations asked for
/// and the final outcome.
fn run_remove(txn: &mut RemoveTxn, answer: impl Fn(&RemoveOp) -> Reply) -> (Vec<String>, Result<(), WsError>) {
    let mut log = Vec::new();
    let mut op = txn.op();
    loop {
        match &op {
            RemoveOp::Fail(e) => return (log, Err(e.clone())),
            RemoveOp::Finish => return (log, Ok(())),
            other => {
                log.push(format!("{:?}", other));
                let reply = answer(other);
                op = txn.on_reply(reply);
            }
        }
    }
}

#[test]
fn test_validate_name() {
    let cases = vec![
        ("valid", "my-feature", false),
        ("valid with dots", "fix.bug", false),
        ("empty", "", true),
        ("forward slash", "a/b", true),
        ("backslash", "a\\b", true),
        ("dot", ".", true),
        ("dotdot", "..", true),
    ];
    for (name, input, want_err) in cases {
        let result = validate_name(input);
        if want_err {
            assert!(result.is_err(), "{}: expected error", name);
        } else {
            assert!(result.is_ok(), "{}: unexpected error: {:?}", name, result);
        }
    }
}

#[test]
fn invalid_name_messages() {
    assert_eq!(validate_name("").unwrap_err().message(), "workspace name cannot be empty");
    assert_eq!(
        validate_name("a/b").unwrap_err().message(),
        "workspace name \"a/b\" cannot contain path separators"
    );
    assert_eq!(validate_name("..").unwrap_err().message(), "workspace name \"..\" is not allowed");
    assert!(validate_name("...").is_ok());
}

#[test]
fn identity_parsing() {
    let id = parse_identity("github.com/acme/api").unwrap();
    assert_eq!((id.host.as_str(), id.owner.as_str(), id.repo.as_str()), ("github.com", "acme", "api"));
    assert_eq!(id.identity(), "github.com/acme/api");
    assert_eq!(id.mirror_path(), "github.com/acme/api.git");
    for bad in ["", "a/b", "a/b/c/d", "/b/c", "a//c", "a/b/", "abc"] {
        assert!(matches!(parse_identity(bad), Err(WsError::IdentityParse { .. })), "{}", bad);
    }
}

#[test]
fn workspace_dir_joins_name() {
    assert_eq!(dir("/home/u/dev/workspaces", "feat"), "/home/u/dev/workspaces/feat");
}

#[test]
fn test_detect_not_in_workspace() {
    let dirs = vec!["/tmp/x/y".to_string(), "/tmp/x".to_string(), "/tmp".to_string(), "/".to_string()];
    assert!(matches!(detect(&dirs, &vec![false; 4]), Err(WsError::NotInWorkspace)));
}

#[test]
fn detect_picks_nearest_workspace() {
    let dirs = vec!["/w/ws/repo".to_string(), "/w/ws".to_string(), "/w".to_string()];
    assert_eq!(detect(&dirs, &vec![false, true, true]).unwrap(), "/w/ws");
}

#[test]
fn test_save_and_load_metadata_round_trip() {
    let m = meta("my-ws", &[("github.com/user/repo-a", None), ("github.com/user/repo-b", None)]);
    let stored = m.stored_repos();
    let loaded = Metadata::from_stored(m.name.clone(), m.branch.clone(), &stored, m.created).unwrap();
    assert_eq!(loaded.name, m.name);
    assert_eq!(loaded.branch, m.branch);
    assert_eq!(loaded.repos.len(), m.repos.len());
    for e in &m.repos {
        assert!(loaded.repos.iter().any(|x| x.identity == e.identity));
    }
}

/// Writes the stored repositories as the metadata file's YAML mapping and reads
/// them back.
fn through_yaml(stored: &[(String, Option<WorkspaceRepoRef>)]) -> Vec<(String, Option<WorkspaceRepoRef>)> {
    let map: BTreeMap<String, Option<BTreeMap<String, String>>> = stored
        .iter()
        .map(|(id, r)| {
            (id.clone(), r.as_ref().map(|w| BTreeMap::from([("ref".to_string(), w.ref_name.clone())])))
        })
        .collect();
    let text = serde_yml::to_string(&map).unwrap();
    let back: BTreeMap<String, Option<BTreeMap<String, String>>> = serde_yml::from_str(&text).unwrap();
    back.into_iter()
        .map(|(id, r)| (id, r.map(|m| WorkspaceRepoRef { ref_name: m.get("ref").cloned().unwrap_or_default() })))
        .collect()
}

#[test]
fn test_save_and_load_metadata_round_trip_with_refs() {
    let m = meta(
        "my-ws",
        &[
            ("github.com/acme/api-gateway", None),
            ("github.com/acme/user-service", Some("main")),
            ("github.com/acme/proto", Some("v1.0")),
        ],
    );
    let stored = through_yaml(&m.stored_repos());
    let loaded = Metadata::from_stored(m.name.clone(), m.branch.clone(), &stored, m.created).unwrap();
    assert_eq!(loaded.name, m.name);
    assert_eq!(loaded.repos.len(), 3);
    let pin = |id: &str| loaded.repos.iter().find(|e| e.identity == id).unwrap().pin.clone();
    assert!(matches!(pin("github.com/acme/api-gateway"), RepoRef::Active));
    assert!(matches!(pin("github.com/acme/user-service"), RepoRef::Context(r) if r == "main"));
    assert!(matches!(pin("github.com/acme/proto"), RepoRef::Context(r) if r == "v1.0"));
}

#[test]
fn stored_form_has_no_record_for_active() {
    let m = meta("w", &[("h/o/a", None), ("h/o/b", Some("v1.0"))]);
    let stored = m.stored_repos();
    assert!(stored[0].1.is_none());
    assert_eq!(stored[1].1.as_ref().unwrap().ref_name, "v1.0");
}

#[test]
fn empty_stored_ref_reads_as_active() {
    let stored = vec![("h/o/a".to_string(), Some(WorkspaceRepoRef { ref_name: String::new() }))];
    let m = Metadata::from_stored("w".into(), "w".into(), &stored, ts()).unwrap();
    assert!(matches!(m.repos[0].pin, RepoRef::Active));
}

#[test]
fn duplicate_stored_identity_is_refused() {
    let stored = vec![("h/o/a".to_string(), None), ("h/o/a".to_string(), None)];
    assert!(matches!(
        Metadata::from_stored("w".into(), "w".into(), &stored, ts()),
        Err(WsError::UnorderedRepos { .. })
    ));
}

#[test]
fn test_add_repos_to_existing_workspace() {
    let m = meta("add-ws", &[("test.local/user/test-repo", None)]);
    let mut txn = add_repos(m, "/ws/add-ws", "/data/mirrors", &refs(&[("test.local/user/test-repo", "")]));
    assert!(matches!(txn.start(), TxnAction::Commit));
    assert_eq!(txn.meta.repos.len(), 1);
    assert_eq!(txn.skipped, vec!["test.local/user/test-repo".to_string()]);
}

#[test]
fn add_repos_attaches_only_new_ones() {
    let m = meta("w", &[("h/o/a", None)]);
    let mut txn = add_repos(m, "/ws/w", "/m", &refs(&[("h/o/a", ""), ("h/o/b", "main")]));
    let TxnAction::Attach(q) = txn.start() else { panic!("expected an attach") };
    assert_eq!(q.identity, "h/o/b");
    assert_eq!(q.mirror, "/m/h/o/b.git");
    assert_eq!(q.worktree, "/ws/w/b");
    assert!(matches!(q.pin, RepoRef::Context(ref r) if r == "main"));
    assert!(matches!(txn.on_attached(Ok(())), TxnAction::Commit));
    assert_eq!(txn.meta.repos.len(), 2);
    assert!(matches!(txn.on_committed(Ok(())), TxnAction::Finished));
}

#[test]
fn add_repos_failure_keeps_disk_and_skips_commit() {
    let m = meta("w", &[]);
    let mut txn = add_repos(m, "/ws/w", "/m", &refs(&[("h/o/a", ""), ("h/o/b", "")]));
    assert!(matches!(txn.start(), TxnAction::Attach(_)));
    assert!(matches!(txn.on_attached(Ok(())), TxnAction::Attach(_)));
    match txn.on_attached(Err("boom".into())) {
        TxnAction::Abort(e) => assert_eq!(e.message(), "adding worktree for h/o/b: boom"),
        other => panic!("unexpected {:?}", other),
    }
}

#[test]
fn create_refuses_existing_directory() {
    let r = create("w", "/ws/w", true, "/m", None, &refs(&[("h/o/a", "")]), ts());
    assert!(matches!(r, Err(WsError::AlreadyExists { .. })));
    let r = create("a/b", "/ws/a/b", false, "/m", None, &refs(&[("h/o/a", "")]), ts());
    assert!(matches!(r, Err(WsError::InvalidName { .. })));
}

#[test]
fn create_attaches_all_then_commits() {
    let mut txn = create("feat", "/ws/feat", false, "/m", Some("jg"), &refs(&[("h/o/a", ""), ("h/o/b", "v1")]), ts()).unwrap();
    assert_eq!(txn.meta.branch, "jg/feat");
    let TxnAction::Attach(q) = txn.start() else { panic!() };
    assert_eq!(q.branch, "jg/feat");
    assert!(matches!(txn.on_attached(Ok(())), TxnAction::Attach(_)));
    assert!(matches!(txn.on_attached(Ok(())), TxnAction::Commit));
    assert_eq!(txn.meta.repos.len(), 2);
    assert!(matches!(txn.on_committed(Ok(())), TxnAction::Finished));
}

#[test]
fn create_rolls_back_on_attach_failure() {
    let mut txn = create("fail-ws", "/ws/fail-ws", false, "/m", None, &refs(&[("nonexistent.local/user/nope", "")]), ts()).unwrap();
    assert!(matches!(txn.start(), TxnAction::Attach(_)));
    assert!(matches!(txn.on_attached(Err("no such mirror".into())), TxnAction::RollBack(_)));
}

#[test]
fn create_rolls_back_on_unparsable_identity_and_failed_commit() {
    let mut txn = create("w", "/ws/w", false, "/m", None, &refs(&[("not-an-identity", "")]), ts()).unwrap();
    assert!(matches!(txn.start(), TxnAction::RollBack(WsError::IdentityParse { .. })));
    let mut txn = create("w", "/ws/w", false, "/m", None, &refs(&[("h/o/a", "")]), ts()).unwrap();
    txn.start();
    assert!(matches!(txn.on_attached(Ok(())), TxnAction::Commit));
    assert!(matches!(txn.on_committed(Err("disk full".into())), TxnAction::RollBack(WsError::MetadataWrite { .. })));
}

fn attach_plan(pin: RepoRef, branch: &str, answer: impl Fn(&Probe) -> Result<String, bool>) -> AttachPlan {
    let mut facts = AttachFacts::new();
    loop {
        match next_attach_step(&pin, branch, &facts) {
            AttachStep::Attach(plan) => return plan,
            AttachStep::Ask(p) => {
                let a = answer(&p);
                match p {
                    Probe::LocalBranch(_) => facts.local = Some(a.unwrap_err()),
                    Probe::RemoteRef(_) => facts.remote = Some(a.unwrap_err()),
                    Probe::DefaultBranch => facts.default_branch = Some(a.unwrap()),
                    Probe::StartRef(_) => facts.start_remote = Some(a.unwrap_err()),
                }
            }
        }
    }
}

#[test]
fn attach_new_branch_prefers_origin_default() {
    let plan = attach_plan(RepoRef::Active, "feat", |p| match p {
        Probe::DefaultBranch => Ok("main".into()),
        Probe::StartRef(r) => Err(r == "origin/main"),
        _ => Err(false),
    });
    assert!(matches!(plan, AttachPlan::NewBranch { ref branch, ref start } if branch == "feat" && start == "origin/main"));
}

#[test]
fn attach_new_branch_falls_back_to_local_default() {
    let plan = attach_plan(RepoRef::Active, "feat", |p| match p {
        Probe::DefaultBranch => Ok("main".into()),
        _ => Err(false),
    });
    assert!(matches!(plan, AttachPlan::NewBranch { ref start, .. } if start == "main"));
}

#[test]
fn attach_existing_workspace_branch() {
    let plan = attach_plan(RepoRef::Active, "feat", |p| Err(matches!(p, Probe::LocalBranch(b) if b == "feat")));
    assert!(matches!(plan, AttachPlan::ExistingLocal(ref b) if b == "feat"));
}

#[test]
fn attach_pinned_chain() {
    let local = attach_plan(RepoRef::Context("main".into()), "feat", |_| Err(true));
    assert!(matches!(local, AttachPlan::ExistingLocal(ref b) if b == "main"));
    let remote = attach_plan(RepoRef::Context("dev".into()), "feat", |p| {
        Err(matches!(p, Probe::RemoteRef(r) if r == "refs/remotes/origin/dev"))
    });
    assert!(matches!(remote, AttachPlan::ExistingRemote(ref b) if b == "origin/dev"));
    let detached = attach_plan(RepoRef::Context("v1.0".into()), "feat", |_| Err(false));
    assert!(matches!(detached, AttachPlan::Detached(ref b) if b == "v1.0"));
}

#[test]
fn remove_blocks_unmerged_branch() {
    let m = meta("rm-unmerged", &[("test.local/user/test-repo", None)]);
    let mut txn = remove(&m, "/ws/rm-unmerged", "/m", false);
    let (log, result) = run_remove(&mut txn, |op| match op {
        RemoveOp::Fetch(_) => Reply::Done,
        RemoveOp::BranchExists(_) => Reply::Answer(true),
        RemoveOp::DefaultBranch(_) => Reply::Branch("main".into()),
        RemoveOp::IsMerged(_, _) => Reply::Answer(false),
        _ => Reply::Done,
    });
    let err = result.unwrap_err();
    assert!(err.message().contains("unmerged branches"), "{}", err.message());
    assert!(err.message().contains("test.local/user/test-repo"));
    assert!(log.iter().all(|l| !l.starts_with("RemoveWorktree") && !l.starts_with("DeleteBranch") && l != "RemoveDir"));
}

#[test]
fn remove_unmerged_notes_failed_fetch() {
    let m = meta("w", &[("h/o/a", None)]);
    let mut txn = remove(&m, "/ws/w", "/m", false);
    let (_, result) = run_remove(&mut txn, |op| match op {
        RemoveOp::Fetch(_) => Reply::Failed("offline".into()),
        RemoveOp::BranchExists(_) => Reply::Answer(true),
        RemoveOp::DefaultBranch(_) => Reply::Branch("main".into()),
        _ => Reply::Answer(false),
    });
    let msg = result.unwrap_err().message();
    assert!(msg.contains("h/o/a (fetch failed, local data may be stale)"));
    assert!(msg.contains("Note: some fetches failed"));
}

#[test]
fn remove_force_deletes_unmerged_branch() {
    let m = meta("rm-force", &[("test.local/user/test-repo", None)]);
    let mut txn = remove(&m, "/ws/rm-force", "/m", true);
    let (log, result) = run_remove(&mut txn, |op| match op {
        RemoveOp::BranchExists(_) => Reply::Answer(true),
        _ => Reply::Done,
    });
    assert!(result.is_ok());
    assert_eq!(log, vec!["Fetch(0)", "RemoveWorktree(0)", "BranchExists(0)", "DeleteBranch(0)", "RemoveDir"]);
    assert_eq!(txn.active[0].worktree, "/ws/rm-force/test-repo");
    assert_eq!(txn.active[0].mirror, "/m/test.local/user/test-repo.git");
}

#[test]
fn remove_deletes_merged_branch() {
    let m = meta("rm-merged", &[("h/o/r", None)]);
    let mut txn = remove(&m, "/ws/rm-merged", "/m", false);
    let (log, result) = run_remove(&mut txn, |op| match op {
        RemoveOp::BranchExists(_) | RemoveOp::IsMerged(_, _) => Reply::Answer(true),
        RemoveOp::DefaultBranch(_) => Reply::Branch("main".into()),
        _ => Reply::Done,
    });
    assert!(result.is_ok());
    assert!(log.contains(&"DeleteBranch(0)".to_string()));
    assert_eq!(log.last().unwrap(), "RemoveDir");
}

#[test]
fn test_remove_skips_branch_delete_for_context_repos() {
    for force in [false, true] {
        let m = meta("rm-ws-ctx", &[("test.local/user/test-repo", Some("main"))]);
        let mut txn = remove(&m, "/ws/rm-ws-ctx", "/m", force);
        let (log, result) = run_remove(&mut txn, |op| match op {
            RemoveOp::BranchExists(_) | RemoveOp::IsMerged(_, _) => Reply::Answer(true),
            _ => Reply::Done,
        });
        assert!(result.is_ok());
        assert_eq!(log, vec!["RemoveWorktree(0)", "RemoveDir"]);
        assert_eq!(txn.context[0].short_name, "test-repo");
    }
}

#[test]
fn remove_failure_of_directory_is_reported() {
    let m = meta("w", &[]);
    let mut txn = remove(&m, "/ws/w", "/m", false);
    let (log, result) = run_remove(&mut txn, |_| Reply::Failed("busy".into()));
    assert_eq!(log, vec!["RemoveDir"]);
    assert_eq!(result.unwrap_err().message(), "removing workspace directory: busy");
}

#[test]
fn test_has_pending_changes_clean() {
    let m = meta("pending-clean", &[("test.local/user/test-repo", None)]);
    let targets = repo_targets(&m, "/ws/pending-clean", "/m");
    let activity: Vec<RepoActivity> =
        targets.iter().map(|t| RepoActivity { short_name: t.short_name.clone(), changed: 0, ahead: 0 }).collect();
    assert!(has_pending_changes(&activity).is_empty());
}

#[test]
fn test_has_pending_changes_uncommitted() {
    let m = meta("pending-dirty", &[("test.local/user/test-repo", None), ("h/o/other", None), ("bad", None)]);
    let targets = repo_targets(&m, "/ws/pending-dirty", "/m");
    assert_eq!(targets.len(), 2);
    assert_eq!(targets[0].worktree, "/ws/pending-dirty/test-repo");
    let activity = vec![
        RepoActivity { short_name: targets[0].short_name.clone(), changed: 1, ahead: 0 },
        RepoActivity { short_name: targets[1].short_name.clone(), changed: 0, ahead: 0 },
    ];
    assert_eq!(has_pending_changes(&activity), vec!["test-repo".to_string()]);
}

#[test]
fn pending_changes_gate_lists_repos() {
    let e = pending_changes_gate("w", false, vec!["api".into(), "web".into()]).unwrap_err();
    assert_eq!(e.message(), "workspace \"w\" has pending changes:\n  - api\n  - web\n\nUse --force to remove anyway");
    assert!(pending_changes_gate("w", true, vec!["api".into()]).is_ok());
    assert!(pending_changes_gate("w", false, vec![]).is_ok());
}

#[test]
fn log_ranges() {
    assert_eq!(resolve_log_range(&UpstreamRef::Tracking).unwrap(), "@{upstream}..HEAD");
    assert_eq!(resolve_log_range(&UpstreamRef::DefaultBranch("main".into())).unwrap(), "origin/main..HEAD");
    assert!(resolve_log_range(&UpstreamRef::Head).is_none());
}

#[test]
fn pending_changes_listed_in_order() {
    let m = meta("w", &[("a.com/x/zeta", None), ("b.com/x/alpha", None)]);
    let targets = repo_targets(&m, "/ws/w", "/m");
    let activity: Vec<RepoActivity> =
        targets.iter().map(|t| RepoActivity { short_name: t.short_name.clone(), changed: 1, ahead: 0 }).collect();
    let dirty = has_pending_changes(&activity);
    assert_eq!(dirty, vec!["zeta".to_string(), "alpha".to_string()]);
    let e = pending_changes_gate("w", false, dirty).unwrap_err();
    assert_eq!(e.message(), "workspace \"w\" has pending changes:\n  - alpha\n  - zeta\n\nUse --force to remove anyway");
}

#[test]
fn added_repos_keep_identity_order() {
    let m = meta("w", &[("h/o/b", None), ("h/o/d", None)]);
    let mut txn = add_repos(m, "/ws/w", "/m", &refs(&[("h/o/c", ""), ("h/o/a", "")]));
    assert!(matches!(txn.start(), TxnAction::Attach(_)));
    assert!(matches!(txn.on_attached(Ok(())), TxnAction::Attach(_)));
    assert!(matches!(txn.on_attached(Ok(())), TxnAction::Commit));
    let ids: Vec<&str> = txn.meta.repos.iter().map(|e| e.identity.as_str()).collect();
    assert_eq!(ids, vec!["h/o/a", "h/o/b", "h/o/c", "h/o/d"]);
}

#[test]
fn unordered_stored_repos_are_refused() {
    let stored = vec![("h/o/b".to_string(), None), ("h/o/a".to_string(), None)];
    assert!(matches!(
        Metadata::from_stored("w".into(), "w".into(), &stored, ts()),
        Err(WsError::UnorderedRepos { .. })
    ));
}
