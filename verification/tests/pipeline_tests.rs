use cargo_release::Features;
use cargo_release::LogLevel;
use cargo_release::Verbosity;
use cargo_release::cargo::publish;
use cargo_release::config::Config;
use cargo_release::config::DependentVersion;
use cargo_release::error::FatalError;
use cargo_release::git::add_all;
use cargo_release::git::commit_all;
use cargo_release::git::changed_from_status;
use cargo_release::git::dirty_from_outputs;
use cargo_release::git::force_push;
use cargo_release::git::init;
use cargo_release::git::push;
use cargo_release::git::push_tag;
use cargo_release::git::tag;
use cargo_release::pipeline::Action;
use cargo_release::pipeline::Event;
use cargo_release::pipeline::IndexStatus;
use cargo_release::pipeline::LogLine;
use cargo_release::pipeline::RunEnd;
use cargo_release::pipeline::prepare_input;
use cargo_release::pipeline::run_pipeline;
use cargo_release::plan::DepDecl;
use cargo_release::plan::Member;
use cargo_release::plan::PackageRelease;
use cargo_release::plan::ReleaseRequest;
use cargo_release::requirement::Comparator;
use cargo_release::requirement::ReqOp;
use cargo_release::requirement::VersionReq;
use cargo_release::version::BumpLevel;
use cargo_release::version::TargetVersion;
use cargo_release::version::Version;

fn pipe_member(name: &str, path: &str, major: u64, minor: u64, patch: u64) -> Member {
    Member {
        name: name.to_string(),
        manifest_path: format!("{}/Cargo.toml", path),
        package_path: path.to_string(),
        version: Version { major, minor, patch, pre: vec![], build: vec![] },
        dependencies: vec![],
        publish: true,
    }
}

fn pipe_request(level_or_version: TargetVersion, dry_run: bool, no_confirm: bool) -> ReleaseRequest {
    ReleaseRequest { level_or_version, metadata: None, prev_tag_name: None, dry_run, no_confirm }
}

fn is_mutating(a: &Action) -> bool {
    !matches!(
        a,
        Action::CheckGitVersion
            | Action::CheckDirtyWorkspace
            | Action::CheckDirtyPackage { .. }
            | Action::CheckChanged { .. }
            | Action::GetBranch
            | Action::Fetch
            | Action::CheckBehind
            | Action::Confirm
            | Action::CheckIndex { .. }
            | Action::GraceSleep { .. }
    )
}

#[test]
fn release_level_no_op_runs_to_success_without_release_actions() {
    // A single package at 0.1.0 with a requested bump of "release": the
    // version is already a release, so no release is pending; under dry
    // run the pipeline completes cleanly.
    let ws = vec![pipe_member("demo", "/ws", 0, 1, 0)];
    let req = pipe_request(TargetVersion::Relative(BumpLevel::Release), true, false);
    let plan = PackageRelease::load(&req, "/ws", &ws, 0, None, None, &Config::new())
        .unwrap()
        .unwrap();
    assert!(plan.version.is_none());
    assert_eq!(plan.prev_tag, "v0.1.0");
    let plans = vec![plan];
    let (input, _outcomes) = prepare_input(&plans, &Config::new(), &req);
    let events = vec![
        Event::Flag(true),  // git is usable
        Event::Flag(false), // tree is clean
        Event::Flag(false), // not a detached head
        Event::Flag(true),  // fetch succeeded
        Event::Flag(false), // not behind the remote
        Event::Flag(true),  // post-release manifest rewrite
        Event::Flag(true),  // post-release lock refresh
        Event::Flag(true),  // post-release commit
        Event::Flag(true),  // branch push
    ];
    let run = run_pipeline(&input, &events);
    assert_eq!(run.end, RunEnd::Done { code: 0 });
    // No release is pending, so nothing is published, tagged, committed or
    // rewritten for the release pass.
    for a in &run.calls {
        assert!(!matches!(a, Action::Publish { .. }));
        assert!(!matches!(a, Action::Tag { .. }));
        assert!(!matches!(a, Action::SetVersion { post: false, .. }));
        assert!(!matches!(a, Action::Commit { post: false, .. }));
        assert!(!matches!(a, Action::PushTag { .. }));
    }
    // The development-version bump still happens, as a logged no-op.
    assert!(run.calls.contains(&Action::SetVersion { pkg: 0, post: true }));
    assert!(run.logs.contains(&LogLine::NextIteration { pkg: 0 }));
}

#[test]
fn full_release_walks_all_seven_phases() {
    let ws = vec![pipe_member("demo", "/ws", 0, 1, 0)];
    let req = pipe_request(TargetVersion::Relative(BumpLevel::Minor), true, false);
    let plan = PackageRelease::load(&req, "/ws", &ws, 0, None, None, &Config::new())
        .unwrap()
        .unwrap();
    let plans = vec![plan];
    let (input, _outcomes) = prepare_input(&plans, &Config::new(), &req);
    let events = vec![
        Event::Flag(true),
        Event::Flag(false),
        Event::Changed { known: true, relevant: 2, lock_excluded: true },
        Event::Flag(false),
        Event::Flag(true),
        Event::Flag(false),
        Event::Flag(true), // release manifest rewrite
        Event::Flag(true), // lock refresh
        Event::Flag(true), // release commit
        Event::Flag(true), // publish (dry run skips the index wait)
        Event::Flag(true), // tag
        Event::Flag(true), // post manifest rewrite
        Event::Flag(true), // post lock refresh
        Event::Flag(true), // post commit
        Event::Flag(true), // tag push
        Event::Flag(true), // branch push
    ];
    let run = run_pipeline(&input, &events);
    assert_eq!(run.end, RunEnd::Done { code: 0 });
    let expected = vec![
        Action::CheckGitVersion,
        Action::CheckDirtyPackage { pkg: 0 },
        Action::CheckChanged { pkg: 0 },
        Action::GetBranch,
        Action::Fetch,
        Action::CheckBehind,
        Action::SetVersion { pkg: 0, post: false },
        Action::UpdateLock { pkg: 0, post: false },
        Action::Commit { pkg: 0, post: false },
        Action::Publish { pkg: 0 },
        Action::Tag { pkg: 0 },
        Action::SetVersion { pkg: 0, post: true },
        Action::UpdateLock { pkg: 0, post: true },
        Action::Commit { pkg: 0, post: true },
        Action::PushTag { pkg: 0 },
        Action::Push { pkg: 0 },
    ];
    assert_eq!(run.calls, expected);
    assert!(run.logs.contains(&LogLine::LockFileIgnored { pkg: 0 }));
    assert!(run.logs.contains(&LogLine::ChangedCount { pkg: 0, n: 2 }));
}

#[test]
fn dirty_tree_aborts_before_any_mutation() {
    let ws = vec![pipe_member("demo", "/ws", 0, 1, 0)];
    let req = pipe_request(TargetVersion::Relative(BumpLevel::Minor), false, true);
    let plan = PackageRelease::load(&req, "/ws", &ws, 0, None, None, &Config::new())
        .unwrap()
        .unwrap();
    let plans = vec![plan];
    let (input, _outcomes) = prepare_input(&plans, &Config::new(), &req);
    let events = vec![Event::Flag(true), Event::Flag(true)];
    let run = run_pipeline(&input, &events);
    assert_eq!(run.end, RunEnd::Done { code: 101 });
    assert_eq!(
        run.calls,
        vec![Action::CheckGitVersion, Action::CheckDirtyPackage { pkg: 0 }]
    );
    assert!(run.calls.iter().all(|a| !is_mutating(a)));
    assert_eq!(run.logs, vec![LogLine::DirtyPackage { pkg: 0 }]);
}

#[test]
fn dirty_tree_under_dry_run_only_warns() {
    let ws = vec![pipe_member("demo", "/ws", 0, 1, 0)];
    let req = pipe_request(TargetVersion::Relative(BumpLevel::Minor), true, false);
    let plan = PackageRelease::load(&req, "/ws", &ws, 0, None, None, &Config::new())
        .unwrap()
        .unwrap();
    let plans = vec![plan];
    let (input, _outcomes) = prepare_input(&plans, &Config::new(), &req);
    let events = vec![Event::Flag(true), Event::Flag(true)];
    let run = run_pipeline(&input, &events);
    // The warning is logged, and the run goes on to the next check instead
    // of aborting.
    assert!(run.logs.contains(&LogLine::DirtyPackage { pkg: 0 }));
    assert_eq!(run.end, RunEnd::Waiting);
    assert_ne!(run.end, RunEnd::Done { code: 101 });
    assert_eq!(run.calls.len(), 3);
    assert_eq!(run.calls[2], Action::CheckChanged { pkg: 0 });
}

#[test]
fn failing_dependents_abort_before_publish() {
    // B depends on A with the exact requirement =1.0.0; releasing A to
    // 2.0.0 under the Error policy fails after examining every dependent,
    // before anything is published.
    let mut a = pipe_member("a", "/ws/a", 1, 0, 0);
    a.dependencies = vec![];
    let mut b = pipe_member("b", "/ws/b", 0, 5, 0);
    b.dependencies = vec![DepDecl {
        name: "a".to_string(),
        req: VersionReq {
            comparators: vec![Comparator {
                op: ReqOp::Exact,
                major: 1,
                minor: Some(0),
                patch: Some(0),
                pre: vec![],
            }],
        },
    }];
    let ws = vec![a, b];
    let req = pipe_request(
        TargetVersion::Absolute(Version { major: 2, minor: 0, patch: 0, pre: vec![], build: vec![] }),
        false,
        true,
    );
    let mut cfg = Config::new();
    cfg.dependent_version = Some(DependentVersion::Error);
    let plan = PackageRelease::load(&req, "/ws", &ws, 0, None, None, &cfg)
        .unwrap()
        .unwrap();
    assert_eq!(plan.dependents.len(), 1);
    let plans = vec![plan];
    let (input, _outcomes) = prepare_input(&plans, &Config::new(), &req);
    let events = vec![
        Event::Flag(true),
        Event::Flag(false),
        Event::Changed { known: false, relevant: 0, lock_excluded: false },
        Event::Flag(false),
        Event::Flag(true),
        Event::Flag(false),
        Event::Flag(true), // the release manifest rewrite of A itself
    ];
    let run = run_pipeline(&input, &events);
    assert_eq!(run.end, RunEnd::Fatal { err: FatalError::DependencyVersionConflict });
    assert!(run.logs.contains(&LogLine::DependentMismatch { pkg: 0, dep: 0 }));
    assert!(run.calls.iter().all(|a| !matches!(a, Action::Publish { .. })));
}

#[test]
fn fix_policy_asks_for_dependent_edits() {
    let mut a = pipe_member("a", "/ws/a", 1, 0, 0);
    a.dependencies = vec![];
    let mut b = pipe_member("b", "/ws/b", 0, 5, 0);
    b.dependencies = vec![DepDecl {
        name: "a".to_string(),
        req: VersionReq {
            comparators: vec![Comparator {
                op: ReqOp::Caret,
                major: 1,
                minor: Some(0),
                patch: None,
                pre: vec![],
            }],
        },
    }];
    let ws = vec![a, b];
    let req = pipe_request(
        TargetVersion::Absolute(Version { major: 2, minor: 0, patch: 0, pre: vec![], build: vec![] }),
        true,
        false,
    );
    let mut cfg = Config::new();
    cfg.dependent_version = Some(DependentVersion::Fix);
    let plan = PackageRelease::load(&req, "/ws", &ws, 0, None, None, &cfg)
        .unwrap()
        .unwrap();
    let plans = vec![plan];
    let (input, outcomes) = prepare_input(&plans, &Config::new(), &req);
    // The corrected requirement the driver would write back.
    match &outcomes[0].rel.entries[0] {
        cargo_release::reconcile::ReconcileEntry::Edit { dep, new_req } => {
            assert_eq!(*dep, 0);
            assert_eq!(new_req, "^2.0");
        },
        other => panic!("expected an edit entry, got {:?}", other),
    }
    let events = vec![
        Event::Flag(true),
        Event::Flag(false),
        Event::Changed { known: true, relevant: 1, lock_excluded: false },
        Event::Flag(false),
        Event::Flag(true),
        Event::Flag(false),
        Event::Flag(true), // manifest rewrite of A
        Event::Flag(true), // the dependent edit
    ];
    let run = run_pipeline(&input, &events);
    assert!(run.calls.contains(&Action::SetDependencyVersion { pkg: 0, entry: 0, post: false }));
    assert!(run.logs.contains(&LogLine::UpdatingDependent { pkg: 0, dep: 0 }));
}

#[test]
fn publish_waits_for_the_index_outside_dry_run() {
    let ws = vec![pipe_member("demo", "/ws", 0, 1, 0)];
    let req = pipe_request(TargetVersion::Relative(BumpLevel::Minor), false, true);
    let mut cfg = Config::new();
    cfg.no_dev_version = Some(true);
    cfg.disable_push = Some(true);
    let plan = PackageRelease::load(&req, "/ws", &ws, 0, None, None, &cfg)
        .unwrap()
        .unwrap();
    let mut ws_cfg = Config::new();
    ws_cfg.disable_push = Some(true);
    let plans = vec![plan];
    let (input, _outcomes) = prepare_input(&plans, &ws_cfg, &req);
    let events = vec![
        Event::Flag(true),
        Event::Flag(false),
        Event::Changed { known: true, relevant: 1, lock_excluded: false },
        Event::Flag(false),
        Event::Flag(true),
        Event::Flag(false),
        Event::Flag(true),                      // manifest rewrite
        Event::Flag(true),                      // lock refresh
        Event::Flag(true),                      // commit
        Event::Flag(true),                      // publish
        Event::Index(IndexStatus::Pending),     // first poll: not there yet
        Event::Index(IndexStatus::Found),       // second poll: found
        Event::Flag(true),                      // grace sleep
        Event::Flag(true),                      // tag
    ];
    let run = run_pipeline(&input, &events);
    assert_eq!(run.end, RunEnd::Done { code: 0 });
    let polls = run
        .calls
        .iter()
        .filter(|a| matches!(a, Action::CheckIndex { .. }))
        .count();
    assert_eq!(polls, 2);
    assert!(run.calls.contains(&Action::GraceSleep { pkg: 0 }));
}

#[test]
fn index_timeout_is_fatal() {
    let ws = vec![pipe_member("demo", "/ws", 0, 1, 0)];
    let req = pipe_request(TargetVersion::Relative(BumpLevel::Minor), false, true);
    let mut cfg = Config::new();
    cfg.no_dev_version = Some(true);
    let plan = PackageRelease::load(&req, "/ws", &ws, 0, None, None, &cfg)
        .unwrap()
        .unwrap();
    let plans = vec![plan];
    let (input, _outcomes) = prepare_input(&plans, &Config::new(), &req);
    let events = vec![
        Event::Flag(true),
        Event::Flag(false),
        Event::Changed { known: true, relevant: 1, lock_excluded: false },
        Event::Flag(false),
        Event::Flag(true),
        Event::Flag(false),
        Event::Flag(true),
        Event::Flag(true),
        Event::Flag(true),
        Event::Flag(true),
        Event::Index(IndexStatus::TimedOut),
    ];
    let run = run_pipeline(&input, &events);
    assert_eq!(run.end, RunEnd::Fatal { err: FatalError::PublishTimeout });
}

#[test]
fn declined_confirmation_is_a_clean_exit() {
    let ws = vec![pipe_member("demo", "/ws", 0, 1, 0)];
    let req = pipe_request(TargetVersion::Relative(BumpLevel::Minor), false, false);
    let plan = PackageRelease::load(&req, "/ws", &ws, 0, None, None, &Config::new())
        .unwrap()
        .unwrap();
    let plans = vec![plan];
    let (input, _outcomes) = prepare_input(&plans, &Config::new(), &req);
    let events = vec![
        Event::Flag(true),
        Event::Flag(false),
        Event::Changed { known: true, relevant: 1, lock_excluded: false },
        Event::Flag(false),
        Event::Flag(true),
        Event::Flag(false),
        Event::Flag(false), // declined
    ];
    let run = run_pipeline(&input, &events);
    assert_eq!(run.end, RunEnd::Done { code: 0 });
    assert_eq!(*run.calls.last().unwrap(), Action::Confirm);
    assert!(run.calls.iter().all(|a| !is_mutating(a) || *a == Action::Confirm));
}

#[test]
fn failed_commit_aborts_with_its_status() {
    let ws = vec![pipe_member("demo", "/ws", 0, 1, 0)];
    let req = pipe_request(TargetVersion::Relative(BumpLevel::Minor), true, false);
    let plan = PackageRelease::load(&req, "/ws", &ws, 0, None, None, &Config::new())
        .unwrap()
        .unwrap();
    let plans = vec![plan];
    let (input, _outcomes) = prepare_input(&plans, &Config::new(), &req);
    let events = vec![
        Event::Flag(true),
        Event::Flag(false),
        Event::Changed { known: true, relevant: 1, lock_excluded: false },
        Event::Flag(false),
        Event::Flag(true),
        Event::Flag(false),
        Event::Flag(true),
        Event::Flag(true),
        Event::Flag(false), // the commit fails
    ];
    let run = run_pipeline(&input, &events);
    assert_eq!(run.end, RunEnd::Done { code: 102 });
}

#[test]
fn dry_runs_are_idempotent() {
    // Two runs against the same plans and the same answers produce the
    // same actions, the same logged decisions and the same final word.
    let ws = vec![pipe_member("demo", "/ws", 0, 1, 0)];
    let req = pipe_request(TargetVersion::Relative(BumpLevel::Minor), true, false);
    let plan = PackageRelease::load(&req, "/ws", &ws, 0, None, None, &Config::new())
        .unwrap()
        .unwrap();
    let plans = vec![plan];
    let (input, _outcomes) = prepare_input(&plans, &Config::new(), &req);
    let events = vec![
        Event::Flag(true),
        Event::Flag(false),
        Event::Changed { known: true, relevant: 1, lock_excluded: false },
        Event::Flag(false),
        Event::Flag(true),
        Event::Flag(false),
        Event::Flag(true),
        Event::Flag(true),
        Event::Flag(true),
        Event::Flag(true),
        Event::Flag(true),
        Event::Flag(true),
        Event::Flag(true),
        Event::Flag(true),
        Event::Flag(true),
        Event::Flag(true),
    ];
    let first = run_pipeline(&input, &events);
    let second = run_pipeline(&input, &events);
    assert_eq!(first.calls, second.calls);
    assert_eq!(first.logs, second.logs);
    assert_eq!(first.end, second.end);
}

#[test]
fn consolidated_commits_share_one_commit() {
    let ws = vec![
        pipe_member("a", "/ws/a", 1, 0, 0),
        pipe_member("b", "/ws/b", 2, 0, 0),
    ];
    let req = pipe_request(TargetVersion::Relative(BumpLevel::Minor), true, false);
    let mut ws_cfg = Config::new();
    ws_cfg.consolidate_commits = Some(true);
    ws_cfg.no_dev_version = Some(true);
    let mut pkg_cfg = Config::new();
    pkg_cfg.no_dev_version = Some(true);
    let a = PackageRelease::load(&req, "/ws", &ws, 0, Some(&ws_cfg), None, &pkg_cfg)
        .unwrap()
        .unwrap();
    let b = PackageRelease::load(&req, "/ws", &ws, 1, Some(&ws_cfg), None, &pkg_cfg)
        .unwrap()
        .unwrap();
    let plans = vec![a, b];
    let (input, _outcomes) = prepare_input(&plans, &ws_cfg, &req);
    let events = vec![
        Event::Flag(true),
        Event::Flag(false), // one workspace-wide dirtiness check
        Event::Changed { known: true, relevant: 1, lock_excluded: false },
        Event::Changed { known: true, relevant: 1, lock_excluded: false },
        Event::Flag(false),
        Event::Flag(true),
        Event::Flag(false),
        Event::Flag(true), // rewrite a
        Event::Flag(true), // lock a
        Event::Flag(true), // rewrite b
        Event::Flag(true), // lock b
        Event::Flag(true), // the one shared commit
        Event::Flag(true), // publish a
        Event::Flag(true), // publish b
        Event::Flag(true), // tag a
        Event::Flag(true), // tag b
        Event::Flag(true), // push tag a
        Event::Flag(true), // push a
        Event::Flag(true), // push tag b
        Event::Flag(true), // push b
    ];
    let run = run_pipeline(&input, &events);
    assert_eq!(run.end, RunEnd::Done { code: 0 });
    let ws_commits = run
        .calls
        .iter()
        .filter(|a| matches!(a, Action::CommitWorkspace { .. }))
        .count();
    let pkg_commits = run
        .calls
        .iter()
        .filter(|a| matches!(a, Action::Commit { .. }))
        .count();
    assert_eq!(ws_commits, 1);
    assert_eq!(pkg_commits, 0);
    assert!(run.calls.contains(&Action::CheckDirtyWorkspace));
}

#[test]
fn git_commands_are_assembled_exactly() {
    let c = commit_all("/ws", "msg", true, false);
    let args: Vec<&str> = c.args.iter().map(|s| s.as_str()).collect();
    assert_eq!(args, vec!["git", "commit", "-S", "-am", "msg"]);
    assert_eq!(c.cwd, "/ws");
    assert!(!c.dry_run);

    let t = tag("/ws", "v1.0.0", "release", false, true);
    let args: Vec<&str> = t.args.iter().map(|s| s.as_str()).collect();
    assert_eq!(args, vec!["git", "tag", "-a", "v1.0.0", "-m", "release", ""]);
    assert!(t.dry_run);

    let p = push("/ws", "origin", false);
    let args: Vec<&str> = p.args.iter().map(|s| s.as_str()).collect();
    assert_eq!(args, vec!["git", "push", "origin"]);

    let pt = push_tag("/ws", "origin", "v1.0.0", false);
    let args: Vec<&str> = pt.args.iter().map(|s| s.as_str()).collect();
    assert_eq!(args, vec!["git", "push", "origin", "v1.0.0"]);

    let i = init("/ws", false);
    let args: Vec<&str> = i.args.iter().map(|s| s.as_str()).collect();
    assert_eq!(args, vec!["git", "init"]);

    let a = add_all("/ws", false);
    let args: Vec<&str> = a.args.iter().map(|s| s.as_str()).collect();
    assert_eq!(args, vec!["git", "add", "."]);

    let f = force_push("/ws", "origin", "main:main", false);
    let args: Vec<&str> = f.args.iter().map(|s| s.as_str()).collect();
    assert_eq!(args, vec!["git", "push", "-f", "origin", "main:main"]);
}

#[test]
fn publish_command_reflects_the_feature_selection() {
    let none = publish(true, false, "/ws/Cargo.toml", &Features::Nothing);
    let args: Vec<&str> = none.args.iter().map(|s| s.as_str()).collect();
    assert_eq!(args, vec!["cargo", "publish", "--manifest-path", "/ws/Cargo.toml"]);

    let some = publish(
        false,
        true,
        "/ws/Cargo.toml",
        &Features::Selective(vec!["a".to_string(), "b".to_string()]),
    );
    let args: Vec<&str> = some.args.iter().map(|s| s.as_str()).collect();
    assert_eq!(
        args,
        vec!["cargo", "publish", "--features", "a b", "--manifest-path", "/ws/Cargo.toml", "--allow-dirty"]
    );

    let all = publish(false, false, "/ws/Cargo.toml", &Features::All);
    let args: Vec<&str> = all.args.iter().map(|s| s.as_str()).collect();
    assert_eq!(args, vec!["cargo", "publish", "--all-features", "--manifest-path", "/ws/Cargo.toml"]);
}

#[test]
fn verbosity_maps_to_log_levels() {
    assert_eq!(Verbosity { quiet: 0, verbose: 0 }.log_level(), LogLevel::Info);
    assert_eq!(Verbosity { quiet: 1, verbose: 0 }.log_level(), LogLevel::Warn);
    assert_eq!(Verbosity { quiet: 2, verbose: 0 }.log_level(), LogLevel::Error);
    assert_eq!(Verbosity { quiet: 5, verbose: 0 }.log_level(), LogLevel::Error);
    assert_eq!(Verbosity { quiet: 0, verbose: 1 }.log_level(), LogLevel::Debug);
    assert_eq!(Verbosity { quiet: 0, verbose: 2 }.log_level(), LogLevel::Trace);
    assert_eq!(Verbosity { quiet: 1, verbose: 1 }.log_level(), LogLevel::Info);
}

#[test]
fn git_probe_decoders() {
    assert!(dirty_from_outputs(false, false));
    assert!(dirty_from_outputs(true, true));
    assert!(!dirty_from_outputs(true, false));
    assert_eq!(changed_from_status(Some(0)), Some(false));
    assert_eq!(changed_from_status(Some(1)), Some(true));
    assert_eq!(changed_from_status(Some(128)), None);
    assert_eq!(changed_from_status(None), None);
}
