use cargo_release::error::FatalError;
use cargo_release::pipeline::Action;
use cargo_release::pipeline::Event;
use cargo_release::pipeline::LogLine;
use cargo_release::pipeline::PkgFacts;
use cargo_release::pipeline::RecFacts;
use cargo_release::pipeline::RunEnd;
use cargo_release::pipeline::RunFlags;
use cargo_release::pipeline::RunInput;
use cargo_release::pipeline::run_pipeline;

fn plain_facts() -> PkgFacts {
    PkgFacts {
        has_version: true,
        has_tag: true,
        has_post: true,
        disable_publish: false,
        default_registry: false,
        disable_push: false,
        has_hook: false,
        has_pre_repl: false,
        has_post_repl: false,
        rel: RecFacts { entries: vec![], failed: false, fatal: None },
        post: RecFacts { entries: vec![], failed: false, fatal: None },
    }
}

fn input_of(facts: PkgFacts, consolidate: bool) -> RunInput {
    RunInput {
        pkgs: vec![facts],
        flags: RunFlags {
            dry_run: false,
            no_confirm: true,
            consolidate_commits: consolidate,
            consolidate_pushes: false,
            ws_disable_push: false,
        },
    }
}

fn preflight() -> Vec<Event> {
    vec![
        Event::Flag(true),  // git is usable
        Event::Flag(false), // clean tree
        Event::Changed { known: false, relevant: 0, lock_excluded: false },
        Event::Flag(false), // not detached
        Event::Flag(true),  // fetch ok
        Event::Flag(false), // not behind
    ]
}

fn run_tail(input: &RunInput, tail: &[Event]) -> cargo_release::pipeline::PipelineRun {
    let mut events = preflight();
    events.extend_from_slice(tail);
    run_pipeline(input, &events)
}

#[test]
fn missing_git_is_fatal() {
    let input = input_of(plain_facts(), false);
    let run = run_pipeline(&input, &vec![Event::Flag(false)]);
    assert_eq!(run.end, RunEnd::Fatal { err: FatalError::GitUnavailable });
}

#[test]
fn failed_fetch_is_fatal() {
    let input = input_of(plain_facts(), false);
    let events = vec![
        Event::Flag(true),
        Event::Flag(false),
        Event::Changed { known: false, relevant: 0, lock_excluded: false },
        Event::Flag(false),
        Event::Flag(false), // fetch fails
    ];
    let run = run_pipeline(&input, &events);
    assert_eq!(run.end, RunEnd::Fatal { err: FatalError::FetchFailed });
}

#[test]
fn failed_manifest_rewrite_is_fatal() {
    let input = input_of(plain_facts(), false);
    let run = run_tail(&input, &[Event::Flag(false)]);
    assert_eq!(run.end, RunEnd::Fatal { err: FatalError::ManifestEditFailed });
}

#[test]
fn failed_lock_refresh_is_fatal() {
    let input = input_of(plain_facts(), false);
    let run = run_tail(&input, &[Event::Flag(true), Event::Flag(false)]);
    assert_eq!(run.end, RunEnd::Fatal { err: FatalError::LockUpdateFailed });
}

#[test]
fn failed_replacement_is_fatal() {
    let mut facts = plain_facts();
    facts.has_pre_repl = true;
    let input = input_of(facts, false);
    let run = run_tail(&input, &[Event::Flag(true), Event::Flag(true), Event::Flag(false)]);
    assert_eq!(run.end, RunEnd::Fatal { err: FatalError::ReplacementFailed });
}

#[test]
fn hook_veto_aborts_with_its_status() {
    let mut facts = plain_facts();
    facts.has_hook = true;
    let input = input_of(facts, false);
    let run = run_tail(&input, &[Event::Flag(true), Event::Flag(true), Event::Flag(false)]);
    assert_eq!(run.end, RunEnd::Done { code: 107 });
    assert!(run.logs.contains(&LogLine::HookAborted { pkg: 0 }));
    assert!(run.logs.contains(&LogLine::CallingHook { pkg: 0 }));
}

#[test]
fn failed_publish_aborts_with_its_status() {
    let input = input_of(plain_facts(), false);
    let run = run_tail(
        &input,
        &[Event::Flag(true), Event::Flag(true), Event::Flag(true), Event::Flag(false)],
    );
    assert_eq!(run.end, RunEnd::Done { code: 103 });
}

#[test]
fn failed_tag_aborts_with_its_status() {
    let input = input_of(plain_facts(), false);
    let run = run_tail(
        &input,
        &[
            Event::Flag(true),
            Event::Flag(true),
            Event::Flag(true),
            Event::Flag(true),
            Event::Flag(false),
        ],
    );
    assert_eq!(run.end, RunEnd::Done { code: 104 });
}

#[test]
fn failed_post_release_commit_aborts_with_its_status() {
    let input = input_of(plain_facts(), false);
    let run = run_tail(
        &input,
        &[
            Event::Flag(true),
            Event::Flag(true),
            Event::Flag(true),
            Event::Flag(true),
            Event::Flag(true),
            Event::Flag(true),
            Event::Flag(true),
            Event::Flag(false), // the post-release commit fails
        ],
    );
    assert_eq!(run.end, RunEnd::Done { code: 105 });
}

#[test]
fn failed_tag_push_aborts_with_its_status() {
    let input = input_of(plain_facts(), false);
    let run = run_tail(
        &input,
        &[
            Event::Flag(true),
            Event::Flag(true),
            Event::Flag(true),
            Event::Flag(true),
            Event::Flag(true),
            Event::Flag(true),
            Event::Flag(true),
            Event::Flag(true),
            Event::Flag(false), // pushing the tag fails
        ],
    );
    assert_eq!(run.end, RunEnd::Done { code: 106 });
    assert_eq!(*run.calls.last().unwrap(), Action::PushTag { pkg: 0 });
}

#[test]
fn failed_shared_commit_aborts_with_the_commit_status() {
    let input = input_of(plain_facts(), true);
    let events = vec![
        Event::Flag(true),
        Event::Flag(false), // the one workspace-wide dirtiness check
        Event::Changed { known: false, relevant: 0, lock_excluded: false },
        Event::Flag(false),
        Event::Flag(true),
        Event::Flag(false),
        Event::Flag(true),  // manifest rewrite
        Event::Flag(true),  // lock refresh
        Event::Flag(false), // the one shared commit fails
    ];
    let run = run_pipeline(&input, &events);
    assert_eq!(run.end, RunEnd::Done { code: 102 });
    assert_eq!(*run.calls.last().unwrap(), Action::CommitWorkspace { post: false });
}

#[test]
fn unsupported_requirement_aborts_before_the_package_edits() {
    let mut facts = plain_facts();
    facts.rel = RecFacts {
        entries: vec![],
        failed: false,
        fatal: Some(FatalError::UnsupportedVersionReq),
    };
    let input = input_of(facts, false);
    let run = run_tail(&input, &[Event::Flag(true)]);
    assert_eq!(run.end, RunEnd::Fatal { err: FatalError::UnsupportedVersionReq });
    assert!(run.calls.iter().all(|a| !matches!(a, Action::SetDependencyVersion { .. })));
}
