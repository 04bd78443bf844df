//! The seven-phase release pipeline as a pure state machine.
//!
//! Every call into the outside world — version control, the registry,
//! manifests on disk — is an [`Action`] the machine asks for; its result
//! comes back as an [`Event`].  The machine's decisions are a function of
//! the package facts, the run flags and the events alone, so a dry run with
//! the same answers takes exactly the same path, and every abort is a
//! definite state with a definite status code.

use vstd::prelude::*;
use crate::config::Config;
use crate::config::or_default;
use crate::config::DependentVersion;
use crate::error::FatalError;
use crate::plan::PackageRelease;
use crate::plan::ReleaseRequest;
use crate::reconcile::ReconcileEntry;
use crate::reconcile::ReconcileEntryV;
use crate::reconcile::ReconcileOutcome;
use crate::reconcile::entries_view;
use crate::reconcile::reconcile_dependents;
use crate::reconcile::spec_has_fail;
use crate::reconcile::spec_reconcile;

verus! {

/// What one reconciliation entry asks the pipeline to do.
#[derive(Clone, Copy, Debug, PartialEq, Eq, Structural)]
pub enum FactEntry {
    /// Log a mismatch and continue.
    Warn { dep: usize },
    /// Log a mismatch; the package's reconciliation fails as a whole.
    Fail { dep: usize },
    /// Write a corrected requirement into the dependent's manifest.
    Edit { dep: usize },
}

/// The reconciliation facts for one package against one target version.
#[derive(Debug)]
pub struct RecFacts {
    pub entries: Vec<FactEntry>,
    /// Whether the aggregate verdict is failure.
    pub failed: bool,
    /// A requirement that could not be rewritten; aborts the run before any
    /// of this package's dependent edits.
    pub fatal: Option<FatalError>,
}

/// The facts about one planned package that drive the pipeline.
#[derive(Debug)]
pub struct PkgFacts {
    /// A release is pending (a next version was decided).
    pub has_version: bool,
    /// A tag name is configured.
    pub has_tag: bool,
    /// A post-release development version is pending.
    pub has_post: bool,
    pub disable_publish: bool,
    /// The default public registry is in use, so publishing waits for the
    /// index.
    pub default_registry: bool,
    pub disable_push: bool,
    pub has_hook: bool,
    pub has_pre_repl: bool,
    pub has_post_repl: bool,
    /// Reconciliation against the release version.
    pub rel: RecFacts,
    /// Reconciliation against the post-release version.
    pub post: RecFacts,
}

/// The run-wide flags.
#[derive(Clone, Copy, Debug, PartialEq, Eq, Structural)]
pub struct RunFlags {
    pub dry_run: bool,
    pub no_confirm: bool,
    pub consolidate_commits: bool,
    pub consolidate_pushes: bool,
    pub ws_disable_push: bool,
}

/// The whole input of one pipeline run.
#[derive(Debug)]
pub struct RunInput {
    pub pkgs: Vec<PkgFacts>,
    pub flags: RunFlags,
}

/// An answer from the registry index poll.
#[derive(Clone, Copy, Debug, PartialEq, Eq, Structural)]
pub enum IndexStatus {
    Found,
    Pending,
    TimedOut,
}

/// The result of one action, handed back by the driver.
#[derive(Clone, Copy, Debug, PartialEq, Eq, Structural)]
pub enum Event {
    /// Success or a yes answer.
    Flag(bool),
    /// The outcome of a changed-files probe: whether the previous tag was
    /// found, how many relevant files changed, and whether the lock file
    /// was set aside as a known benign change.
    Changed { known: bool, relevant: usize, lock_excluded: bool },
    /// The outcome of one registry index check.
    Index(IndexStatus),
}

/// One call into the outside world.  Indices refer to the planned packages;
/// `post` distinguishes the post-release pass.
#[derive(Clone, Copy, Debug, PartialEq, Eq, Structural)]
pub enum Action {
    CheckGitVersion,
    CheckDirtyWorkspace,
    CheckDirtyPackage { pkg: usize },
    CheckChanged { pkg: usize },
    GetBranch,
    Fetch,
    CheckBehind,
    Confirm,
    SetVersion { pkg: usize, post: bool },
    SetDependencyVersion { pkg: usize, entry: usize, post: bool },
    UpdateLock { pkg: usize, post: bool },
    ApplyReplacements { pkg: usize, post: bool },
    RunHook { pkg: usize },
    Commit { pkg: usize, post: bool },
    CommitWorkspace { post: bool },
    Publish { pkg: usize },
    CheckIndex { pkg: usize },
    GraceSleep { pkg: usize },
    Tag { pkg: usize },
    PushTag { pkg: usize },
    Push { pkg: usize },
    PushWorkspace,
}

/// One logged decision.
#[derive(Clone, Copy, Debug, PartialEq, Eq, Structural)]
pub enum LogLine {
    DirtyWorkspace,
    DirtyPackage { pkg: usize },
    ChangesUnknown { pkg: usize },
    LockFileIgnored { pkg: usize },
    NoChangesSince { pkg: usize },
    ChangedCount { pkg: usize, n: usize },
    DetachedHead,
    BehindRemote,
    Updating { pkg: usize },
    DependentMismatch { pkg: usize, dep: usize },
    UpdatingDependent { pkg: usize, dep: usize },
    CallingHook { pkg: usize },
    HookAborted { pkg: usize },
    Publishing { pkg: usize },
    CreatingTag { pkg: usize },
    NextIteration { pkg: usize },
    PushingTag { pkg: usize },
    PushingHead { pkg: usize },
    PushingHeadWorkspace,
}

/// The machine's position: each variant but the two terminal ones waits for
/// the result of exactly one action.
#[derive(Clone, Copy, Debug, PartialEq, Eq, Structural)]
pub enum St {
    GitVersion,
    DirtyWs,
    DirtyPkg { i: usize, dirty: bool },
    Changed { i: usize },
    Branch,
    FetchSt,
    Behind,
    ConfirmSt,
    SetVersion { i: usize },
    DepEdit { i: usize, j: usize },
    UpdateLock { i: usize },
    Replace { i: usize },
    Hook { i: usize },
    CommitPkg { i: usize },
    CommitWs,
    PublishSt { i: usize },
    IndexCheck { i: usize },
    Grace { i: usize },
    TagPkg { i: usize },
    PostDepEdit { i: usize, j: usize },
    PostSetVersion { i: usize },
    PostUpdateLock { i: usize },
    PostReplace { i: usize },
    PostCommitPkg { i: usize },
    PostCommitWs,
    PushTagSt { i: usize },
    PushPkg { i: usize },
    PushWs,
    Finished { code: i32 },
    Fatalled { err: FatalError },
}

/// The final word of a run.
#[derive(Clone, Copy, Debug, PartialEq, Eq, Structural)]
pub enum RunEnd {
    /// A phase-specific status code; zero is success or a declined
    /// confirmation.
    Done { code: i32 },
    /// A fatal condition that unwinds the whole run.
    Fatal { err: FatalError },
    /// The event list ran out with an action still unanswered.
    Waiting,
}

/// The index-level shadow of a reconciliation entry.
pub open spec fn fact_of_entry(e: ReconcileEntryV) -> FactEntry {
    match e {
        ReconcileEntryV::WarnMismatch { dep } => FactEntry::Warn { dep },
        ReconcileEntryV::FailMismatch { dep } => FactEntry::Fail { dep },
        ReconcileEntryV::Edit { dep, .. } => FactEntry::Edit { dep },
    }
}

/// Whether reconciliation facts mirror a reconciliation's specified value.
pub open spec fn rec_facts_match(
    f: &RecFacts,
    s: Result<Seq<ReconcileEntryV>, FatalError>,
) -> bool {
    match s {
        Result::Ok(es) => f.fatal is None && f.entries@ == es.map_values(
            |e: ReconcileEntryV| fact_of_entry(e),
        ) && f.failed == spec_has_fail(es),
        Result::Err(e) => f.fatal == Option::Some(e) && f.entries@ == Seq::<FactEntry>::empty()
            && !f.failed,
    }
}

/// Empty reconciliation facts, for a package with nothing to reconcile.
pub open spec fn rec_facts_empty(f: &RecFacts) -> bool {
    f.fatal is None && f.entries@ == Seq::<FactEntry>::empty() && !f.failed
}

/// The boolean carried by an event; any other event shape reads as failure.
pub open spec fn ev_flag(e: Event) -> bool {
    match e {
        Event::Flag(b) => b,
        _ => false,
    }
}

/// The changed-files answer carried by an event; any other shape reads as
/// an unknown probe.
pub open spec fn ev_changed(e: Event) -> (bool, usize, bool) {
    match e {
        Event::Changed { known, relevant, lock_excluded } => (known, relevant, lock_excluded),
        _ => (false, 0usize, false),
    }
}

/// The index answer carried by an event; any other shape reads as timeout.
pub open spec fn ev_index(e: Event) -> IndexStatus {
    match e {
        Event::Index(s) => s,
        _ => IndexStatus::TimedOut,
    }
}

/// Whether any package has a pending release.
pub open spec fn any_version(pkgs: Seq<PkgFacts>) -> bool {
    exists|p: int| 0 <= p < pkgs.len() && pkgs[p].has_version
}

/// Whether any package has a pending post-release bump.
pub open spec fn any_post(pkgs: Seq<PkgFacts>) -> bool {
    exists|p: int| 0 <= p < pkgs.len() && pkgs[p].has_post
}

/// The action a waiting state asks for.
pub open spec fn spec_ask(st: St) -> Action {
    match st {
        St::GitVersion => Action::CheckGitVersion,
        St::DirtyWs => Action::CheckDirtyWorkspace,
        St::DirtyPkg { i, .. } => Action::CheckDirtyPackage { pkg: i },
        St::Changed { i } => Action::CheckChanged { pkg: i },
        St::Branch => Action::GetBranch,
        St::FetchSt => Action::Fetch,
        St::Behind => Action::CheckBehind,
        St::ConfirmSt => Action::Confirm,
        St::SetVersion { i } => Action::SetVersion { pkg: i, post: false },
        St::DepEdit { i, j } => Action::SetDependencyVersion { pkg: i, entry: j, post: false },
        St::UpdateLock { i } => Action::UpdateLock { pkg: i, post: false },
        St::Replace { i } => Action::ApplyReplacements { pkg: i, post: false },
        St::Hook { i } => Action::RunHook { pkg: i },
        St::CommitPkg { i } => Action::Commit { pkg: i, post: false },
        St::CommitWs => Action::CommitWorkspace { post: false },
        St::PublishSt { i } => Action::Publish { pkg: i },
        St::IndexCheck { i } => Action::CheckIndex { pkg: i },
        St::Grace { i } => Action::GraceSleep { pkg: i },
        St::TagPkg { i } => Action::Tag { pkg: i },
        St::PostDepEdit { i, j } => Action::SetDependencyVersion { pkg: i, entry: j, post: true },
        St::PostSetVersion { i } => Action::SetVersion { pkg: i, post: true },
        St::PostUpdateLock { i } => Action::UpdateLock { pkg: i, post: true },
        St::PostReplace { i } => Action::ApplyReplacements { pkg: i, post: true },
        St::PostCommitPkg { i } => Action::Commit { pkg: i, post: true },
        St::PostCommitWs => Action::CommitWorkspace { post: true },
        St::PushTagSt { i } => Action::PushTag { pkg: i },
        St::PushPkg { i } => Action::Push { pkg: i },
        St::PushWs => Action::PushWorkspace,
        St::Finished { .. } => Action::CheckGitVersion,
        St::Fatalled { .. } => Action::CheckGitVersion,
    }
}

/// A transition's result: the next waiting (or terminal) state and the
/// decisions logged on the way.
#[verifier::ext_equal]
pub ghost struct StepV {
    pub st: St,
    pub logs: Seq<LogLine>,
}

/// Moves to the changed-files probe of the next package with a pending
/// release, or on to the branch checks.
pub open spec fn adv_changed(pkgs: Seq<PkgFacts>, i: int) -> St
    decreases pkgs.len() - i,
{
    if i < 0 || i >= pkgs.len() {
        St::Branch
    } else if pkgs[i].has_version {
        St::Changed { i: i as usize }
    } else {
        adv_changed(pkgs, i + 1)
    }
}

/// The dirty-tree gate: a dirty tree aborts with the dirty status unless
/// this is a dry run, which proceeds with the warning already logged.
pub open spec fn dirty_gate(pkgs: Seq<PkgFacts>, flags: RunFlags, dirty: bool) -> St {
    if dirty && !flags.dry_run {
        St::Finished { code: 101 }
    } else {
        adv_changed(pkgs, 0)
    }
}

/// After the remote checks: ask for confirmation unless suppressed or dry.
pub open spec fn confirm_or_phase2(pkgs: Seq<PkgFacts>, flags: RunFlags) -> StepV {
    if !flags.dry_run && !flags.no_confirm {
        StepV { st: St::ConfirmSt, logs: Seq::empty() }
    } else {
        adv_phase2(pkgs, flags, 0)
    }
}

/// Moves to the version rewrite of the next package with a pending release;
/// after the last one, to the shared commit when commits are consolidated,
/// else on to publishing.
pub open spec fn adv_phase2(pkgs: Seq<PkgFacts>, flags: RunFlags, i: int) -> StepV
    decreases pkgs.len() - i,
{
    if i < 0 || i >= pkgs.len() {
        if flags.consolidate_commits && any_version(pkgs) {
            StepV { st: St::CommitWs, logs: Seq::empty() }
        } else {
            adv_publish(pkgs, flags, 0)
        }
    } else if pkgs[i].has_version {
        StepV { st: St::SetVersion { i: i as usize }, logs: seq![LogLine::Updating { pkg: i as usize }] }
    } else {
        adv_phase2(pkgs, flags, i + 1)
    }
}

/// Walks the release reconciliation entries of package `i` from `j` on:
/// mismatches are logged, and the walk waits at each manifest edit.  At the
/// end an aggregated failure aborts the run.
pub open spec fn adv_rel_entries(pkgs: Seq<PkgFacts>, flags: RunFlags, i: int, j: int) -> StepV
    decreases pkgs[i].rel.entries@.len() - j,
{
    if !(0 <= i < pkgs.len()) || j < 0 || j >= pkgs[i].rel.entries@.len() {
        if 0 <= i < pkgs.len() && pkgs[i].rel.failed {
            StepV {
                st: St::Fatalled { err: FatalError::DependencyVersionConflict },
                logs: Seq::empty(),
            }
        } else {
            StepV { st: St::UpdateLock { i: i as usize }, logs: Seq::empty() }
        }
    } else {
        match pkgs[i].rel.entries@[j] {
            FactEntry::Warn { dep } => {
                let rest = adv_rel_entries(pkgs, flags, i, j + 1);
                StepV {
                    st: rest.st,
                    logs: seq![LogLine::DependentMismatch { pkg: i as usize, dep }] + rest.logs,
                }
            },
            FactEntry::Fail { dep } => {
                let rest = adv_rel_entries(pkgs, flags, i, j + 1);
                StepV {
                    st: rest.st,
                    logs: seq![LogLine::DependentMismatch { pkg: i as usize, dep }] + rest.logs,
                }
            },
            FactEntry::Edit { dep } => StepV {
                st: St::DepEdit { i: i as usize, j: j as usize },
                logs: seq![LogLine::UpdatingDependent { pkg: i as usize, dep }],
            },
        }
    }
}

/// After the release reconciliation of package `i` begins: an unsupported
/// requirement aborts at once, else the entry walk starts.
pub open spec fn start_rel_entries(pkgs: Seq<PkgFacts>, flags: RunFlags, i: int) -> StepV {
    if 0 <= i < pkgs.len() && pkgs[i].rel.fatal is Some {
        StepV { st: St::Fatalled { err: pkgs[i].rel.fatal->0 }, logs: Seq::empty() }
    } else {
        adv_rel_entries(pkgs, flags, i, 0)
    }
}

/// After the lock refresh of package `i`: text substitutions when
/// configured, else straight to the hook step.
pub open spec fn after_lock(pkgs: Seq<PkgFacts>, flags: RunFlags, i: int) -> StepV {
    if 0 <= i < pkgs.len() && pkgs[i].has_pre_repl {
        StepV { st: St::Replace { i: i as usize }, logs: Seq::empty() }
    } else {
        after_replace(pkgs, flags, i)
    }
}

/// After the substitutions of package `i`: the pre-release hook when
/// configured, else the commit step.
pub open spec fn after_replace(pkgs: Seq<PkgFacts>, flags: RunFlags, i: int) -> StepV {
    if 0 <= i < pkgs.len() && pkgs[i].has_hook {
        StepV { st: St::Hook { i: i as usize }, logs: seq![LogLine::CallingHook { pkg: i as usize }] }
    } else {
        after_hook(pkgs, flags, i)
    }
}

/// After the hook of package `i`: a per-package commit, or deferral to the
/// shared commit when commits are consolidated.
pub open spec fn after_hook(pkgs: Seq<PkgFacts>, flags: RunFlags, i: int) -> StepV {
    if flags.consolidate_commits {
        adv_phase2(pkgs, flags, i + 1)
    } else {
        StepV { st: St::CommitPkg { i: i as usize }, logs: Seq::empty() }
    }
}

/// Moves to publishing the next package with a pending release and
/// publishing enabled; after the last one, on to tagging.
pub open spec fn adv_publish(pkgs: Seq<PkgFacts>, flags: RunFlags, i: int) -> StepV
    decreases pkgs.len() - i,
{
    if i < 0 || i >= pkgs.len() {
        adv_tag(pkgs, flags, 0)
    } else if pkgs[i].has_version && !pkgs[i].disable_publish {
        StepV {
            st: St::PublishSt { i: i as usize },
            logs: seq![LogLine::Publishing { pkg: i as usize }],
        }
    } else {
        adv_publish(pkgs, flags, i + 1)
    }
}

/// Moves to tagging the next package with a pending release and a tag name;
/// after the last one, on to the post-release bumps.
pub open spec fn adv_tag(pkgs: Seq<PkgFacts>, flags: RunFlags, i: int) -> StepV
    decreases pkgs.len() - i,
{
    if i < 0 || i >= pkgs.len() {
        adv_post(pkgs, flags, 0)
    } else if pkgs[i].has_version && pkgs[i].has_tag {
        StepV {
            st: St::TagPkg { i: i as usize },
            logs: seq![LogLine::CreatingTag { pkg: i as usize }],
        }
    } else {
        adv_tag(pkgs, flags, i + 1)
    }
}

/// Walks the post-release reconciliation entries, like the release walk.
pub open spec fn adv_post_entries(pkgs: Seq<PkgFacts>, flags: RunFlags, i: int, j: int) -> StepV
    decreases pkgs[i].post.entries@.len() - j,
{
    if !(0 <= i < pkgs.len()) || j < 0 || j >= pkgs[i].post.entries@.len() {
        if 0 <= i < pkgs.len() && pkgs[i].post.failed {
            StepV {
                st: St::Fatalled { err: FatalError::DependencyVersionConflict },
                logs: Seq::empty(),
            }
        } else {
            StepV { st: St::PostSetVersion { i: i as usize }, logs: Seq::empty() }
        }
    } else {
        match pkgs[i].post.entries@[j] {
            FactEntry::Warn { dep } => {
                let rest = adv_post_entries(pkgs, flags, i, j + 1);
                StepV {
                    st: rest.st,
                    logs: seq![LogLine::DependentMismatch { pkg: i as usize, dep }] + rest.logs,
                }
            },
            FactEntry::Fail { dep } => {
                let rest = adv_post_entries(pkgs, flags, i, j + 1);
                StepV {
                    st: rest.st,
                    logs: seq![LogLine::DependentMismatch { pkg: i as usize, dep }] + rest.logs,
                }
            },
            FactEntry::Edit { dep } => StepV {
                st: St::PostDepEdit { i: i as usize, j: j as usize },
                logs: seq![LogLine::UpdatingDependent { pkg: i as usize, dep }],
            },
        }
    }
}

/// Moves to the post-release bump of the next package with one pending:
/// its reconciliation starts at once.  After the last package, the shared
/// post-release commit or the pushes.
pub open spec fn adv_post(pkgs: Seq<PkgFacts>, flags: RunFlags, i: int) -> StepV
    decreases pkgs.len() - i,
{
    if i < 0 || i >= pkgs.len() {
        if flags.consolidate_commits && any_post(pkgs) {
            StepV { st: St::PostCommitWs, logs: Seq::empty() }
        } else {
            push_start(pkgs, flags)
        }
    } else if pkgs[i].has_post {
        if pkgs[i].post.fatal is Some {
            StepV {
                st: St::Fatalled { err: pkgs[i].post.fatal->0 },
                logs: seq![LogLine::NextIteration { pkg: i as usize }],
            }
        } else {
            let rest = adv_post_entries(pkgs, flags, i, 0);
            StepV { st: rest.st, logs: seq![LogLine::NextIteration { pkg: i as usize }] + rest.logs }
        }
    } else {
        adv_post(pkgs, flags, i + 1)
    }
}

/// After the post-release substitutions of package `i`: a per-package
/// commit, or deferral to the shared one.
pub open spec fn post_after_replace(pkgs: Seq<PkgFacts>, flags: RunFlags, i: int) -> StepV {
    if flags.consolidate_commits {
        adv_post(pkgs, flags, i + 1)
    } else {
        StepV { st: St::PostCommitPkg { i: i as usize }, logs: Seq::empty() }
    }
}

/// After the post-release lock refresh of package `i`.
pub open spec fn post_after_lock(pkgs: Seq<PkgFacts>, flags: RunFlags, i: int) -> StepV {
    if 0 <= i < pkgs.len() && pkgs[i].has_post_repl {
        StepV { st: St::PostReplace { i: i as usize }, logs: Seq::empty() }
    } else {
        post_after_replace(pkgs, flags, i)
    }
}

/// The push phase begins, unless pushing is disabled workspace-wide.
pub open spec fn push_start(pkgs: Seq<PkgFacts>, flags: RunFlags) -> StepV {
    if flags.ws_disable_push {
        StepV { st: St::Finished { code: 0 }, logs: Seq::empty() }
    } else {
        adv_push(pkgs, flags, 0)
    }
}

/// Moves to the pushes of the next package that allows them: its created
/// tag first, then its branch unless pushes are consolidated.  After the
/// last package, the one shared push.
pub open spec fn adv_push(pkgs: Seq<PkgFacts>, flags: RunFlags, i: int) -> StepV
    decreases pkgs.len() - i,
{
    if i < 0 || i >= pkgs.len() {
        if flags.consolidate_pushes {
            StepV { st: St::PushWs, logs: seq![LogLine::PushingHeadWorkspace] }
        } else {
            StepV { st: St::Finished { code: 0 }, logs: Seq::empty() }
        }
    } else if pkgs[i].disable_push {
        adv_push(pkgs, flags, i + 1)
    } else if pkgs[i].has_version && pkgs[i].has_tag {
        StepV {
            st: St::PushTagSt { i: i as usize },
            logs: seq![LogLine::PushingTag { pkg: i as usize }],
        }
    } else if !flags.consolidate_pushes {
        StepV {
            st: St::PushPkg { i: i as usize },
            logs: seq![LogLine::PushingHead { pkg: i as usize }],
        }
    } else {
        adv_push(pkgs, flags, i + 1)
    }
}

/// After the tag push of package `i`: its branch push, unless consolidated.
pub open spec fn after_push_tag(pkgs: Seq<PkgFacts>, flags: RunFlags, i: int) -> StepV {
    if !flags.consolidate_pushes {
        StepV {
            st: St::PushPkg { i: i as usize },
            logs: seq![LogLine::PushingHead { pkg: i as usize }],
        }
    } else {
        adv_push(pkgs, flags, i + 1)
    }
}

/// One transition: what the machine does with the answer to the action it
/// was waiting for.
pub open spec fn spec_step(pkgs: Seq<PkgFacts>, flags: RunFlags, st: St, e: Event) -> StepV {
    match st {
        St::GitVersion => {
            if ev_flag(e) {
                if flags.consolidate_commits {
                    StepV { st: St::DirtyWs, logs: Seq::empty() }
                } else if pkgs.len() > 0 {
                    StepV { st: St::DirtyPkg { i: 0, dirty: false }, logs: Seq::empty() }
                } else {
                    StepV { st: dirty_gate(pkgs, flags, false), logs: Seq::empty() }
                }
            } else {
                StepV { st: St::Fatalled { err: FatalError::GitUnavailable }, logs: Seq::empty() }
            }
        },
        St::DirtyWs => {
            let d = ev_flag(e);
            StepV {
                st: dirty_gate(pkgs, flags, d),
                logs: if d {
                    seq![LogLine::DirtyWorkspace]
                } else {
                    Seq::empty()
                },
            }
        },
        St::DirtyPkg { i, dirty } => {
            let d = ev_flag(e);
            let logs: Seq<LogLine> = if d {
                seq![LogLine::DirtyPackage { pkg: i }]
            } else {
                Seq::empty()
            };
            if i + 1 < pkgs.len() {
                StepV { st: St::DirtyPkg { i: (i + 1) as usize, dirty: dirty || d }, logs }
            } else {
                StepV { st: dirty_gate(pkgs, flags, dirty || d), logs }
            }
        },
        St::Changed { i } => {
            let (known, relevant, lock_excluded) = ev_changed(e);
            let logs: Seq<LogLine> = if !known {
                seq![LogLine::ChangesUnknown { pkg: i }]
            } else {
                (if lock_excluded {
                    seq![LogLine::LockFileIgnored { pkg: i }]
                } else {
                    Seq::empty()
                }) + (if relevant == 0 {
                    seq![LogLine::NoChangesSince { pkg: i }]
                } else {
                    seq![LogLine::ChangedCount { pkg: i, n: relevant }]
                })
            };
            StepV { st: adv_changed(pkgs, i + 1), logs }
        },
        St::Branch => {
            StepV {
                st: St::FetchSt,
                logs: if ev_flag(e) {
                    seq![LogLine::DetachedHead]
                } else {
                    Seq::empty()
                },
            }
        },
        St::FetchSt => {
            if ev_flag(e) {
                StepV { st: St::Behind, logs: Seq::empty() }
            } else {
                StepV { st: St::Fatalled { err: FatalError::FetchFailed }, logs: Seq::empty() }
            }
        },
        St::Behind => {
            let rest = confirm_or_phase2(pkgs, flags);
            StepV {
                st: rest.st,
                logs: (if ev_flag(e) {
                    seq![LogLine::BehindRemote]
                } else {
                    Seq::<LogLine>::empty()
                }) + rest.logs,
            }
        },
        St::ConfirmSt => {
            if ev_flag(e) {
                adv_phase2(pkgs, flags, 0)
            } else {
                StepV { st: St::Finished { code: 0 }, logs: Seq::empty() }
            }
        },
        St::SetVersion { i } => {
            if ev_flag(e) {
                start_rel_entries(pkgs, flags, i as int)
            } else {
                StepV {
                    st: St::Fatalled { err: FatalError::ManifestEditFailed },
                    logs: Seq::empty(),
                }
            }
        },
        St::DepEdit { i, j } => {
            if ev_flag(e) {
                adv_rel_entries(pkgs, flags, i as int, j + 1)
            } else {
                StepV {
                    st: St::Fatalled { err: FatalError::ManifestEditFailed },
                    logs: Seq::empty(),
                }
            }
        },
        St::UpdateLock { i } => {
            if ev_flag(e) {
                after_lock(pkgs, flags, i as int)
            } else {
                StepV { st: St::Fatalled { err: FatalError::LockUpdateFailed }, logs: Seq::empty() }
            }
        },
        St::Replace { i } => {
            if ev_flag(e) {
                after_replace(pkgs, flags, i as int)
            } else {
                StepV {
                    st: St::Fatalled { err: FatalError::ReplacementFailed },
                    logs: Seq::empty(),
                }
            }
        },
        St::Hook { i } => {
            if ev_flag(e) {
                after_hook(pkgs, flags, i as int)
            } else {
                StepV {
                    st: St::Finished { code: 107 },
                    logs: seq![LogLine::HookAborted { pkg: i }],
                }
            }
        },
        St::CommitPkg { i } => {
            if ev_flag(e) {
                adv_phase2(pkgs, flags, i + 1)
            } else {
                StepV { st: St::Finished { code: 102 }, logs: Seq::empty() }
            }
        },
        St::CommitWs => {
            if ev_flag(e) {
                adv_publish(pkgs, flags, 0)
            } else {
                StepV { st: St::Finished { code: 102 }, logs: Seq::empty() }
            }
        },
        St::PublishSt { i } => {
            if ev_flag(e) {
                if i < pkgs.len() && pkgs[i as int].default_registry && !flags.dry_run {
                    StepV { st: St::IndexCheck { i }, logs: Seq::empty() }
                } else {
                    adv_publish(pkgs, flags, i + 1)
                }
            } else {
                StepV { st: St::Finished { code: 103 }, logs: Seq::empty() }
            }
        },
        St::IndexCheck { i } => {
            match ev_index(e) {
                IndexStatus::Found => StepV { st: St::Grace { i }, logs: Seq::empty() },
                IndexStatus::Pending => StepV { st: St::IndexCheck { i }, logs: Seq::empty() },
                IndexStatus::TimedOut => StepV {
                    st: St::Fatalled { err: FatalError::PublishTimeout },
                    logs: Seq::empty(),
                },
            }
        },
        St::Grace { i } => adv_publish(pkgs, flags, i + 1),
        St::TagPkg { i } => {
            if ev_flag(e) {
                adv_tag(pkgs, flags, i + 1)
            } else {
                StepV { st: St::Finished { code: 104 }, logs: Seq::empty() }
            }
        },
        St::PostDepEdit { i, j } => {
            if ev_flag(e) {
                adv_post_entries(pkgs, flags, i as int, j + 1)
            } else {
                StepV {
                    st: St::Fatalled { err: FatalError::ManifestEditFailed },
                    logs: Seq::empty(),
                }
            }
        },
        St::PostSetVersion { i } => {
            if ev_flag(e) {
                StepV { st: St::PostUpdateLock { i }, logs: Seq::empty() }
            } else {
                StepV {
                    st: St::Fatalled { err: FatalError::ManifestEditFailed },
                    logs: Seq::empty(),
                }
            }
        },
        St::PostUpdateLock { i } => {
            if ev_flag(e) {
                post_after_lock(pkgs, flags, i as int)
            } else {
                StepV { st: St::Fatalled { err: FatalError::LockUpdateFailed }, logs: Seq::empty() }
            }
        },
        St::PostReplace { i } => {
            if ev_flag(e) {
                post_after_replace(pkgs, flags, i as int)
            } else {
                StepV {
                    st: St::Fatalled { err: FatalError::ReplacementFailed },
                    logs: Seq::empty(),
                }
            }
        },
        St::PostCommitPkg { i } => {
            if ev_flag(e) {
                adv_post(pkgs, flags, i + 1)
            } else {
                StepV { st: St::Finished { code: 105 }, logs: Seq::empty() }
            }
        },
        St::PostCommitWs => {
            if ev_flag(e) {
                push_start(pkgs, flags)
            } else {
                StepV { st: St::Finished { code: 102 }, logs: Seq::empty() }
            }
        },
        St::PushTagSt { i } => {
            if ev_flag(e) {
                after_push_tag(pkgs, flags, i as int)
            } else {
                StepV { st: St::Finished { code: 106 }, logs: Seq::empty() }
            }
        },
        St::PushPkg { i } => {
            if ev_flag(e) {
                adv_push(pkgs, flags, i + 1)
            } else {
                StepV { st: St::Finished { code: 106 }, logs: Seq::empty() }
            }
        },
        St::PushWs => {
            if ev_flag(e) {
                StepV { st: St::Finished { code: 0 }, logs: Seq::empty() }
            } else {
                StepV { st: St::Finished { code: 106 }, logs: Seq::empty() }
            }
        },
        St::Finished { code } => StepV { st: St::Finished { code }, logs: Seq::empty() },
        St::Fatalled { err } => StepV { st: St::Fatalled { err }, logs: Seq::empty() },
    }
}

/// A whole run's outputs, as values.
#[verifier::ext_equal]
pub ghost struct RunV {
    pub calls: Seq<Action>,
    pub logs: Seq<LogLine>,
    pub end: RunEnd,
}

/// The run from state `st` on, fed by `events` in order: each waiting state
/// emits its action, consumes one event, and moves on; the run ends at a
/// terminal state or when the events run out.
pub open spec fn spec_run(pkgs: Seq<PkgFacts>, flags: RunFlags, st: St, events: Seq<Event>) -> RunV
    decreases events.len(),
{
    match st {
        St::Finished { code } => RunV {
            calls: Seq::empty(),
            logs: Seq::empty(),
            end: RunEnd::Done { code },
        },
        St::Fatalled { err } => RunV {
            calls: Seq::empty(),
            logs: Seq::empty(),
            end: RunEnd::Fatal { err },
        },
        _ => {
            if events.len() == 0 {
                RunV { calls: seq![spec_ask(st)], logs: Seq::empty(), end: RunEnd::Waiting }
            } else {
                let s = spec_step(pkgs, flags, st, events[0]);
                let rest = spec_run(pkgs, flags, s.st, events.drop_first());
                RunV {
                    calls: seq![spec_ask(st)] + rest.calls,
                    logs: s.logs + rest.logs,
                    end: rest.end,
                }
            }
        },
    }
}

/// The state a run starts in.
pub open spec fn init_state() -> St {
    St::GitVersion
}

/// Every package index carried by the state is in bounds, and every entry
/// index points into the entry list it walks.
pub open spec fn st_wf(pkgs: Seq<PkgFacts>, st: St) -> bool {
    match st {
        St::DirtyPkg { i, .. } => i < pkgs.len(),
        St::Changed { i } => i < pkgs.len(),
        St::SetVersion { i } => i < pkgs.len(),
        St::DepEdit { i, j } => i < pkgs.len() && j < pkgs[i as int].rel.entries@.len(),
        St::UpdateLock { i } => i < pkgs.len(),
        St::Replace { i } => i < pkgs.len(),
        St::Hook { i } => i < pkgs.len(),
        St::CommitPkg { i } => i < pkgs.len(),
        St::PublishSt { i } => i < pkgs.len(),
        St::IndexCheck { i } => i < pkgs.len(),
        St::Grace { i } => i < pkgs.len(),
        St::TagPkg { i } => i < pkgs.len(),
        St::PostDepEdit { i, j } => i < pkgs.len() && j < pkgs[i as int].post.entries@.len(),
        St::PostSetVersion { i } => i < pkgs.len(),
        St::PostUpdateLock { i } => i < pkgs.len(),
        St::PostReplace { i } => i < pkgs.len(),
        St::PostCommitPkg { i } => i < pkgs.len(),
        St::PushTagSt { i } => i < pkgs.len(),
        St::PushPkg { i } => i < pkgs.len(),
        _ => true,
    }
}

/// The action a waiting state asks for.
pub fn pipeline_ask(st: St) -> (a: Action)
    ensures
        a == spec_ask(st),
{
    match st {
        St::GitVersion => Action::CheckGitVersion,
        St::DirtyWs => Action::CheckDirtyWorkspace,
        St::DirtyPkg { i, .. } => Action::CheckDirtyPackage { pkg: i },
        St::Changed { i } => Action::CheckChanged { pkg: i },
        St::Branch => Action::GetBranch,
        St::FetchSt => Action::Fetch,
        St::Behind => Action::CheckBehind,
        St::ConfirmSt => Action::Confirm,
        St::SetVersion { i } => Action::SetVersion { pkg: i, post: false },
        St::DepEdit { i, j } => Action::SetDependencyVersion { pkg: i, entry: j, post: false },
        St::UpdateLock { i } => Action::UpdateLock { pkg: i, post: false },
        St::Replace { i } => Action::ApplyReplacements { pkg: i, post: false },
        St::Hook { i } => Action::RunHook { pkg: i },
        St::CommitPkg { i } => Action::Commit { pkg: i, post: false },
        St::CommitWs => Action::CommitWorkspace { post: false },
        St::PublishSt { i } => Action::Publish { pkg: i },
        St::IndexCheck { i } => Action::CheckIndex { pkg: i },
        St::Grace { i } => Action::GraceSleep { pkg: i },
        St::TagPkg { i } => Action::Tag { pkg: i },
        St::PostDepEdit { i, j } => Action::SetDependencyVersion { pkg: i, entry: j, post: true },
        St::PostSetVersion { i } => Action::SetVersion { pkg: i, post: true },
        St::PostUpdateLock { i } => Action::UpdateLock { pkg: i, post: true },
        St::PostReplace { i } => Action::ApplyReplacements { pkg: i, post: true },
        St::PostCommitPkg { i } => Action::Commit { pkg: i, post: true },
        St::PostCommitWs => Action::CommitWorkspace { post: true },
        St::PushTagSt { i } => Action::PushTag { pkg: i },
        St::PushPkg { i } => Action::Push { pkg: i },
        St::PushWs => Action::PushWorkspace,
        St::Finished { .. } => Action::CheckGitVersion,
        St::Fatalled { .. } => Action::CheckGitVersion,
    }
}

/// Relates an executable transition to its specified value.
pub open spec fn step_matches(st2: St, logs: Seq<LogLine>, s: StepV) -> bool {
    st2 == s.st && logs == s.logs
}

fn has_any_version(input: &RunInput) -> (r: bool)
    ensures
        r == any_version(input.pkgs@),
{
    let mut p: usize = 0;
    while p < input.pkgs.len()
        invariant
            p <= input.pkgs@.len(),
            forall|q: int| 0 <= q < p ==> !input.pkgs@[q].has_version,
        decreases input.pkgs@.len() - p,
    {
        if input.pkgs[p].has_version {
            return true;
        }
        p += 1;
    }
    false
}

fn has_any_post(input: &RunInput) -> (r: bool)
    ensures
        r == any_post(input.pkgs@),
{
    let mut p: usize = 0;
    while p < input.pkgs.len()
        invariant
            p <= input.pkgs@.len(),
            forall|q: int| 0 <= q < p ==> !input.pkgs@[q].has_post,
        decreases input.pkgs@.len() - p,
    {
        if input.pkgs[p].has_post {
            return true;
        }
        p += 1;
    }
    false
}

fn go_changed(input: &RunInput, i: usize) -> (st: St)
    ensures
        st == adv_changed(input.pkgs@, i as int),
        st_wf(input.pkgs@, st),
    decreases input.pkgs@.len() - i,
{
    if i >= input.pkgs.len() {
        St::Branch
    } else if input.pkgs[i].has_version {
        St::Changed { i }
    } else {
        go_changed(input, i + 1)
    }
}

fn go_dirty_gate(input: &RunInput, dirty: bool) -> (st: St)
    ensures
        st == dirty_gate(input.pkgs@, input.flags, dirty),
        st_wf(input.pkgs@, st),
{
    if dirty && !input.flags.dry_run {
        St::Finished { code: 101 }
    } else {
        go_changed(input, 0)
    }
}

fn go_phase2(input: &RunInput, i: usize, logs: &mut Vec<LogLine>) -> (st: St)
    requires
        old(logs)@ == Seq::<LogLine>::empty(),
    ensures
        step_matches(st, final(logs)@, adv_phase2(input.pkgs@, input.flags, i as int)),
        st_wf(input.pkgs@, st),
    decreases input.pkgs@.len() - i,
{
    if i >= input.pkgs.len() {
        if input.flags.consolidate_commits && has_any_version(input) {
            St::CommitWs
        } else {
            go_publish(input, 0, logs)
        }
    } else if input.pkgs[i].has_version {
        logs.push(LogLine::Updating { pkg: i });
        proof {
            assert(logs@ =~= seq![LogLine::Updating { pkg: i }]);
        }
        St::SetVersion { i }
    } else {
        go_phase2(input, i + 1, logs)
    }
}

fn go_rel_entries(input: &RunInput, i: usize, j: usize, logs: &mut Vec<LogLine>) -> (st: St)
    requires
        i < input.pkgs@.len(),
        j <= input.pkgs@[i as int].rel.entries@.len(),
        old(logs)@ == Seq::<LogLine>::empty(),
    ensures
        step_matches(st, final(logs)@, adv_rel_entries(input.pkgs@, input.flags, i as int, j as int)),
        st_wf(input.pkgs@, st),
    decreases input.pkgs@[i as int].rel.entries@.len() - j,
{
    if j >= input.pkgs[i].rel.entries.len() {
        if input.pkgs[i].rel.failed {
            St::Fatalled { err: FatalError::DependencyVersionConflict }
        } else {
            St::UpdateLock { i }
        }
    } else {
        match input.pkgs[i].rel.entries[j] {
            FactEntry::Warn { dep } => {
                let st = go_rel_entries(input, i, j + 1, logs);
                let mut out: Vec<LogLine> = Vec::new();
                out.push(LogLine::DependentMismatch { pkg: i, dep });
                let mut rest = core_take(logs);
                out.append(&mut rest);
                replace_logs(logs, out);
                proof {
                    assert(logs@ =~= seq![LogLine::DependentMismatch { pkg: i, dep }]
                        + adv_rel_entries(input.pkgs@, input.flags, i as int, j + 1).logs);
                }
                st
            },
            FactEntry::Fail { dep } => {
                let st = go_rel_entries(input, i, j + 1, logs);
                let mut out: Vec<LogLine> = Vec::new();
                out.push(LogLine::DependentMismatch { pkg: i, dep });
                let mut rest = core_take(logs);
                out.append(&mut rest);
                replace_logs(logs, out);
                proof {
                    assert(logs@ =~= seq![LogLine::DependentMismatch { pkg: i, dep }]
                        + adv_rel_entries(input.pkgs@, input.flags, i as int, j + 1).logs);
                }
                st
            },
            FactEntry::Edit { dep } => {
                logs.push(LogLine::UpdatingDependent { pkg: i, dep });
                proof {
                    assert(logs@ =~= seq![LogLine::UpdatingDependent { pkg: i, dep }]);
                }
                St::DepEdit { i, j }
            },
        }
    }
}

/// Takes the contents of a log buffer, leaving it empty.
fn core_take(logs: &mut Vec<LogLine>) -> (r: Vec<LogLine>)
    ensures
        r@ == old(logs)@,
        final(logs)@ == Seq::<LogLine>::empty(),
{
    let mut out: Vec<LogLine> = Vec::new();
    let mut k: usize = 0;
    while k < logs.len()
        invariant
            k <= logs@.len(),
            out@.len() == k,
            logs@ == old(logs)@,
            forall|q: int| 0 <= q < k ==> out@[q] == logs@[q],
        decreases logs@.len() - k,
    {
        out.push(logs[k]);
        k += 1;
    }
    logs.clear();
    proof {
        assert(out@ =~= old(logs)@);
    }
    out
}

/// Replaces the contents of a log buffer.
fn replace_logs(logs: &mut Vec<LogLine>, src: Vec<LogLine>)
    requires
        old(logs)@ == Seq::<LogLine>::empty(),
    ensures
        final(logs)@ == src@,
{
    let mut k: usize = 0;
    let n = src.len();
    while k < n
        invariant
            k <= src@.len(),
            n == src@.len(),
            logs@.len() == k,
            forall|q: int| 0 <= q < k ==> logs@[q] == src@[q],
        decreases src@.len() - k,
    {
        logs.push(src[k]);
        k += 1;
    }
    proof {
        assert(logs@ =~= src@);
    }
}

fn go_start_rel(input: &RunInput, i: usize, logs: &mut Vec<LogLine>) -> (st: St)
    requires
        i < input.pkgs@.len(),
        old(logs)@ == Seq::<LogLine>::empty(),
    ensures
        step_matches(st, final(logs)@, start_rel_entries(input.pkgs@, input.flags, i as int)),
        st_wf(input.pkgs@, st),
{
    match input.pkgs[i].rel.fatal {
        Option::Some(e) => St::Fatalled { err: e },
        Option::None => go_rel_entries(input, i, 0, logs),
    }
}

fn go_after_hook(input: &RunInput, i: usize, logs: &mut Vec<LogLine>) -> (st: St)
    requires
        i < input.pkgs@.len(),
        old(logs)@ == Seq::<LogLine>::empty(),
    ensures
        step_matches(st, final(logs)@, after_hook(input.pkgs@, input.flags, i as int)),
        st_wf(input.pkgs@, st),
{
    let n = input.pkgs.len();
    if input.flags.consolidate_commits {
        go_phase2(input, i + 1, logs)
    } else {
        St::CommitPkg { i }
    }
}

fn go_after_replace(input: &RunInput, i: usize, logs: &mut Vec<LogLine>) -> (st: St)
    requires
        i < input.pkgs@.len(),
        old(logs)@ == Seq::<LogLine>::empty(),
    ensures
        step_matches(st, final(logs)@, after_replace(input.pkgs@, input.flags, i as int)),
        st_wf(input.pkgs@, st),
{
    if input.pkgs[i].has_hook {
        logs.push(LogLine::CallingHook { pkg: i });
        proof {
            assert(logs@ =~= seq![LogLine::CallingHook { pkg: i }]);
        }
        St::Hook { i }
    } else {
        go_after_hook(input, i, logs)
    }
}

fn go_after_lock(input: &RunInput, i: usize, logs: &mut Vec<LogLine>) -> (st: St)
    requires
        i < input.pkgs@.len(),
        old(logs)@ == Seq::<LogLine>::empty(),
    ensures
        step_matches(st, final(logs)@, after_lock(input.pkgs@, input.flags, i as int)),
        st_wf(input.pkgs@, st),
{
    if input.pkgs[i].has_pre_repl {
        St::Replace { i }
    } else {
        go_after_replace(input, i, logs)
    }
}

fn go_publish(input: &RunInput, i: usize, logs: &mut Vec<LogLine>) -> (st: St)
    requires
        old(logs)@ == Seq::<LogLine>::empty(),
    ensures
        step_matches(st, final(logs)@, adv_publish(input.pkgs@, input.flags, i as int)),
        st_wf(input.pkgs@, st),
    decreases input.pkgs@.len() - i,
{
    if i >= input.pkgs.len() {
        go_tag(input, 0, logs)
    } else if input.pkgs[i].has_version && !input.pkgs[i].disable_publish {
        logs.push(LogLine::Publishing { pkg: i });
        proof {
            assert(logs@ =~= seq![LogLine::Publishing { pkg: i }]);
        }
        St::PublishSt { i }
    } else {
        go_publish(input, i + 1, logs)
    }
}

fn go_tag(input: &RunInput, i: usize, logs: &mut Vec<LogLine>) -> (st: St)
    requires
        old(logs)@ == Seq::<LogLine>::empty(),
    ensures
        step_matches(st, final(logs)@, adv_tag(input.pkgs@, input.flags, i as int)),
        st_wf(input.pkgs@, st),
    decreases input.pkgs@.len() - i,
{
    if i >= input.pkgs.len() {
        go_post(input, 0, logs)
    } else if input.pkgs[i].has_version && input.pkgs[i].has_tag {
        logs.push(LogLine::CreatingTag { pkg: i });
        proof {
            assert(logs@ =~= seq![LogLine::CreatingTag { pkg: i }]);
        }
        St::TagPkg { i }
    } else {
        go_tag(input, i + 1, logs)
    }
}

fn go_post_entries(input: &RunInput, i: usize, j: usize, logs: &mut Vec<LogLine>) -> (st: St)
    requires
        i < input.pkgs@.len(),
        j <= input.pkgs@[i as int].post.entries@.len(),
        old(logs)@ == Seq::<LogLine>::empty(),
    ensures
        step_matches(
            st,
            final(logs)@,
            adv_post_entries(input.pkgs@, input.flags, i as int, j as int),
        ),
        st_wf(input.pkgs@, st),
    decreases input.pkgs@[i as int].post.entries@.len() - j,
{
    if j >= input.pkgs[i].post.entries.len() {
        if input.pkgs[i].post.failed {
            St::Fatalled { err: FatalError::DependencyVersionConflict }
        } else {
            St::PostSetVersion { i }
        }
    } else {
        match input.pkgs[i].post.entries[j] {
            FactEntry::Warn { dep } => {
                let st = go_post_entries(input, i, j + 1, logs);
                let mut out: Vec<LogLine> = Vec::new();
                out.push(LogLine::DependentMismatch { pkg: i, dep });
                let mut rest = core_take(logs);
                out.append(&mut rest);
                replace_logs(logs, out);
                proof {
                    assert(logs@ =~= seq![LogLine::DependentMismatch { pkg: i, dep }]
                        + adv_post_entries(input.pkgs@, input.flags, i as int, j + 1).logs);
                }
                st
            },
            FactEntry::Fail { dep } => {
                let st = go_post_entries(input, i, j + 1, logs);
                let mut out: Vec<LogLine> = Vec::new();
                out.push(LogLine::DependentMismatch { pkg: i, dep });
                let mut rest = core_take(logs);
                out.append(&mut rest);
                replace_logs(logs, out);
                proof {
                    assert(logs@ =~= seq![LogLine::DependentMismatch { pkg: i, dep }]
                        + adv_post_entries(input.pkgs@, input.flags, i as int, j + 1).logs);
                }
                st
            },
            FactEntry::Edit { dep } => {
                logs.push(LogLine::UpdatingDependent { pkg: i, dep });
                proof {
                    assert(logs@ =~= seq![LogLine::UpdatingDependent { pkg: i, dep }]);
                }
                St::PostDepEdit { i, j }
            },
        }
    }
}

fn go_post(input: &RunInput, i: usize, logs: &mut Vec<LogLine>) -> (st: St)
    requires
        old(logs)@ == Seq::<LogLine>::empty(),
    ensures
        step_matches(st, final(logs)@, adv_post(input.pkgs@, input.flags, i as int)),
        st_wf(input.pkgs@, st),
    decreases input.pkgs@.len() - i,
{
    if i >= input.pkgs.len() {
        if input.flags.consolidate_commits && has_any_post(input) {
            St::PostCommitWs
        } else {
            go_push_start(input, logs)
        }
    } else if input.pkgs[i].has_post {
        match input.pkgs[i].post.fatal {
            Option::Some(e) => {
                logs.push(LogLine::NextIteration { pkg: i });
                proof {
                    assert(logs@ =~= seq![LogLine::NextIteration { pkg: i }]);
                }
                St::Fatalled { err: e }
            },
            Option::None => {
                let st = go_post_entries(input, i, 0, logs);
                let mut out: Vec<LogLine> = Vec::new();
                out.push(LogLine::NextIteration { pkg: i });
                let mut rest = core_take(logs);
                out.append(&mut rest);
                replace_logs(logs, out);
                proof {
                    assert(logs@ =~= seq![LogLine::NextIteration { pkg: i }] + adv_post_entries(
                        input.pkgs@,
                        input.flags,
                        i as int,
                        0,
                    ).logs);
                }
                st
            },
        }
    } else {
        go_post(input, i + 1, logs)
    }
}

fn go_post_after_replace(input: &RunInput, i: usize, logs: &mut Vec<LogLine>) -> (st: St)
    requires
        i < input.pkgs@.len(),
        old(logs)@ == Seq::<LogLine>::empty(),
    ensures
        step_matches(st, final(logs)@, post_after_replace(input.pkgs@, input.flags, i as int)),
        st_wf(input.pkgs@, st),
{
    let n = input.pkgs.len();
    if input.flags.consolidate_commits {
        go_post(input, i + 1, logs)
    } else {
        St::PostCommitPkg { i }
    }
}

fn go_post_after_lock(input: &RunInput, i: usize, logs: &mut Vec<LogLine>) -> (st: St)
    requires
        i < input.pkgs@.len(),
        old(logs)@ == Seq::<LogLine>::empty(),
    ensures
        step_matches(st, final(logs)@, post_after_lock(input.pkgs@, input.flags, i as int)),
        st_wf(input.pkgs@, st),
{
    if input.pkgs[i].has_post_repl {
        St::PostReplace { i }
    } else {
        go_post_after_replace(input, i, logs)
    }
}

fn go_push(input: &RunInput, i: usize, logs: &mut Vec<LogLine>) -> (st: St)
    requires
        old(logs)@ == Seq::<LogLine>::empty(),
    ensures
        step_matches(st, final(logs)@, adv_push(input.pkgs@, input.flags, i as int)),
        st_wf(input.pkgs@, st),
    decreases input.pkgs@.len() - i,
{
    if i >= input.pkgs.len() {
        if input.flags.consolidate_pushes {
            logs.push(LogLine::PushingHeadWorkspace);
            proof {
                assert(logs@ =~= seq![LogLine::PushingHeadWorkspace]);
            }
            St::PushWs
        } else {
            St::Finished { code: 0 }
        }
    } else if input.pkgs[i].disable_push {
        go_push(input, i + 1, logs)
    } else if input.pkgs[i].has_version && input.pkgs[i].has_tag {
        logs.push(LogLine::PushingTag { pkg: i });
        proof {
            assert(logs@ =~= seq![LogLine::PushingTag { pkg: i }]);
        }
        St::PushTagSt { i }
    } else if !input.flags.consolidate_pushes {
        logs.push(LogLine::PushingHead { pkg: i });
        proof {
            assert(logs@ =~= seq![LogLine::PushingHead { pkg: i }]);
        }
        St::PushPkg { i }
    } else {
        go_push(input, i + 1, logs)
    }
}

fn go_push_start(input: &RunInput, logs: &mut Vec<LogLine>) -> (st: St)
    requires
        old(logs)@ == Seq::<LogLine>::empty(),
    ensures
        step_matches(st, final(logs)@, push_start(input.pkgs@, input.flags)),
        st_wf(input.pkgs@, st),
{
    if input.flags.ws_disable_push {
        St::Finished { code: 0 }
    } else {
        go_push(input, 0, logs)
    }
}

fn go_after_push_tag(input: &RunInput, i: usize, logs: &mut Vec<LogLine>) -> (st: St)
    requires
        i < input.pkgs@.len(),
        old(logs)@ == Seq::<LogLine>::empty(),
    ensures
        step_matches(st, final(logs)@, after_push_tag(input.pkgs@, input.flags, i as int)),
        st_wf(input.pkgs@, st),
{
    let n = input.pkgs.len();
    if !input.flags.consolidate_pushes {
        logs.push(LogLine::PushingHead { pkg: i });
        proof {
            assert(logs@ =~= seq![LogLine::PushingHead { pkg: i }]);
        }
        St::PushPkg { i }
    } else {
        go_push(input, i + 1, logs)
    }
}

fn go_confirm_or_phase2(input: &RunInput, logs: &mut Vec<LogLine>) -> (st: St)
    requires
        old(logs)@ == Seq::<LogLine>::empty(),
    ensures
        step_matches(st, final(logs)@, confirm_or_phase2(input.pkgs@, input.flags)),
        st_wf(input.pkgs@, st),
{
    if !input.flags.dry_run && !input.flags.no_confirm {
        St::ConfirmSt
    } else {
        go_phase2(input, 0, logs)
    }
}

/// One transition of the pipeline, per [`spec_step`]: consumes the answer
/// to the action the state was waiting for, appends the logged decisions,
/// and moves to the next waiting or terminal state.
pub fn pipeline_step(input: &RunInput, st: St, e: Event) -> (r: (St, Vec<LogLine>))
    requires
        st_wf(input.pkgs@, st),
    ensures
        step_matches(r.0, r.1@, spec_step(input.pkgs@, input.flags, st, e)),
        st_wf(input.pkgs@, r.0),
{
    let n = input.pkgs.len();
    let flag: bool = match e {
        Event::Flag(b) => b,
        _ => false,
    };
    let mut logs: Vec<LogLine> = Vec::new();
    let st2: St = match st {
        St::GitVersion => {
            if flag {
                if input.flags.consolidate_commits {
                    St::DirtyWs
                } else if input.pkgs.len() > 0 {
                    St::DirtyPkg { i: 0, dirty: false }
                } else {
                    go_dirty_gate(input, false)
                }
            } else {
                St::Fatalled { err: FatalError::GitUnavailable }
            }
        },
        St::DirtyWs => {
            if flag {
                logs.push(LogLine::DirtyWorkspace);
                proof {
                    assert(logs@ =~= seq![LogLine::DirtyWorkspace]);
                }
            }
            go_dirty_gate(input, flag)
        },
        St::DirtyPkg { i, dirty } => {
            if flag {
                logs.push(LogLine::DirtyPackage { pkg: i });
                proof {
                    assert(logs@ =~= seq![LogLine::DirtyPackage { pkg: i }]);
                }
            }
            if i + 1 < input.pkgs.len() {
                St::DirtyPkg { i: i + 1, dirty: dirty || flag }
            } else {
                go_dirty_gate(input, dirty || flag)
            }
        },
        St::Changed { i } => {
            let (known, relevant, lock_excluded): (bool, usize, bool) = match e {
                Event::Changed { known, relevant, lock_excluded } => (
                    known,
                    relevant,
                    lock_excluded,
                ),
                _ => (false, 0, false),
            };
            if !known {
                logs.push(LogLine::ChangesUnknown { pkg: i });
            } else {
                if lock_excluded {
                    logs.push(LogLine::LockFileIgnored { pkg: i });
                }
                if relevant == 0 {
                    logs.push(LogLine::NoChangesSince { pkg: i });
                } else {
                    logs.push(LogLine::ChangedCount { pkg: i, n: relevant });
                }
            }
            proof {
                assert(logs@ =~= spec_step(input.pkgs@, input.flags, st, e).logs);
            }
            go_changed(input, i + 1)
        },
        St::Branch => {
            if flag {
                logs.push(LogLine::DetachedHead);
                proof {
                    assert(logs@ =~= seq![LogLine::DetachedHead]);
                }
            }
            St::FetchSt
        },
        St::FetchSt => {
            if flag {
                St::Behind
            } else {
                St::Fatalled { err: FatalError::FetchFailed }
            }
        },
        St::Behind => {
            if flag {
                logs.push(LogLine::BehindRemote);
            }
            let ghost pre = logs@;
            let mut rest_logs: Vec<LogLine> = Vec::new();
            let st2 = go_confirm_or_phase2(input, &mut rest_logs);
            let mut rl = rest_logs;
            logs.append(&mut rl);
            proof {
                assert(logs@ =~= pre + confirm_or_phase2(input.pkgs@, input.flags).logs);
                assert(pre =~= (if ev_flag(e) {
                    seq![LogLine::BehindRemote]
                } else {
                    Seq::<LogLine>::empty()
                }));
            }
            st2
        },
        St::ConfirmSt => {
            if flag {
                go_phase2(input, 0, &mut logs)
            } else {
                St::Finished { code: 0 }
            }
        },
        St::SetVersion { i } => {
            if flag {
                go_start_rel(input, i, &mut logs)
            } else {
                St::Fatalled { err: FatalError::ManifestEditFailed }
            }
        },
        St::DepEdit { i, j } => {
            if flag {
                let m = input.pkgs[i].rel.entries.len();
                go_rel_entries(input, i, j + 1, &mut logs)
            } else {
                St::Fatalled { err: FatalError::ManifestEditFailed }
            }
        },
        St::UpdateLock { i } => {
            if flag {
                go_after_lock(input, i, &mut logs)
            } else {
                St::Fatalled { err: FatalError::LockUpdateFailed }
            }
        },
        St::Replace { i } => {
            if flag {
                go_after_replace(input, i, &mut logs)
            } else {
                St::Fatalled { err: FatalError::ReplacementFailed }
            }
        },
        St::Hook { i } => {
            if flag {
                go_after_hook(input, i, &mut logs)
            } else {
                logs.push(LogLine::HookAborted { pkg: i });
                proof {
                    assert(logs@ =~= seq![LogLine::HookAborted { pkg: i }]);
                }
                St::Finished { code: 107 }
            }
        },
        St::CommitPkg { i } => {
            if flag {
                go_phase2(input, i + 1, &mut logs)
            } else {
                St::Finished { code: 102 }
            }
        },
        St::CommitWs => {
            if flag {
                go_publish(input, 0, &mut logs)
            } else {
                St::Finished { code: 102 }
            }
        },
        St::PublishSt { i } => {
            if flag {
                if input.pkgs[i].default_registry && !input.flags.dry_run {
                    St::IndexCheck { i }
                } else {
                    go_publish(input, i + 1, &mut logs)
                }
            } else {
                St::Finished { code: 103 }
            }
        },
        St::IndexCheck { i } => {
            let status: IndexStatus = match e {
                Event::Index(s) => s,
                _ => IndexStatus::TimedOut,
            };
            match status {
                IndexStatus::Found => St::Grace { i },
                IndexStatus::Pending => St::IndexCheck { i },
                IndexStatus::TimedOut => St::Fatalled { err: FatalError::PublishTimeout },
            }
        },
        St::Grace { i } => go_publish(input, i + 1, &mut logs),
        St::TagPkg { i } => {
            if flag {
                go_tag(input, i + 1, &mut logs)
            } else {
                St::Finished { code: 104 }
            }
        },
        St::PostDepEdit { i, j } => {
            if flag {
                let m = input.pkgs[i].post.entries.len();
                go_post_entries(input, i, j + 1, &mut logs)
            } else {
                St::Fatalled { err: FatalError::ManifestEditFailed }
            }
        },
        St::PostSetVersion { i } => {
            if flag {
                St::PostUpdateLock { i }
            } else {
                St::Fatalled { err: FatalError::ManifestEditFailed }
            }
        },
        St::PostUpdateLock { i } => {
            if flag {
                go_post_after_lock(input, i, &mut logs)
            } else {
                St::Fatalled { err: FatalError::LockUpdateFailed }
            }
        },
        St::PostReplace { i } => {
            if flag {
                go_post_after_replace(input, i, &mut logs)
            } else {
                St::Fatalled { err: FatalError::ReplacementFailed }
            }
        },
        St::PostCommitPkg { i } => {
            if flag {
                go_post(input, i + 1, &mut logs)
            } else {
                St::Finished { code: 105 }
            }
        },
        St::PostCommitWs => {
            if flag {
                go_push_start(input, &mut logs)
            } else {
                St::Finished { code: 102 }
            }
        },
        St::PushTagSt { i } => {
            if flag {
                go_after_push_tag(input, i, &mut logs)
            } else {
                St::Finished { code: 106 }
            }
        },
        St::PushPkg { i } => {
            if flag {
                go_push(input, i + 1, &mut logs)
            } else {
                St::Finished { code: 106 }
            }
        },
        St::PushWs => {
            if flag {
                St::Finished { code: 0 }
            } else {
                St::Finished { code: 106 }
            }
        },
        St::Finished { code } => St::Finished { code },
        St::Fatalled { err } => St::Fatalled { err },
    };
    (st2, logs)
}

/// States the advance helpers can finish in carry status zero; the dirty
/// abort code in particular never comes from them.
proof fn lemma_adv_push_codes(pkgs: Seq<PkgFacts>, flags: RunFlags, i: int)
    ensures
        adv_push(pkgs, flags, i).st matches St::Finished { code } ==> code == 0,
    decreases pkgs.len() - i,
{
    if 0 <= i < pkgs.len() {
        lemma_adv_push_codes(pkgs, flags, i + 1);
    }
}

proof fn lemma_push_start_codes(pkgs: Seq<PkgFacts>, flags: RunFlags)
    ensures
        push_start(pkgs, flags).st matches St::Finished { code } ==> code == 0,
{
    lemma_adv_push_codes(pkgs, flags, 0);
}

proof fn lemma_adv_post_codes(pkgs: Seq<PkgFacts>, flags: RunFlags, i: int)
    ensures
        adv_post(pkgs, flags, i).st matches St::Finished { code } ==> code == 0,
    decreases pkgs.len() - i,
{
    if 0 <= i < pkgs.len() {
        if pkgs[i].has_post {
            lemma_adv_post_entries_codes(pkgs, flags, i, 0);
        } else {
            lemma_adv_post_codes(pkgs, flags, i + 1);
        }
    } else {
        lemma_push_start_codes(pkgs, flags);
    }
}

proof fn lemma_adv_post_entries_codes(pkgs: Seq<PkgFacts>, flags: RunFlags, i: int, j: int)
    ensures
        adv_post_entries(pkgs, flags, i, j).st matches St::Finished { code } ==> code == 0,
    decreases pkgs[i].post.entries@.len() - j,
{
    if 0 <= i < pkgs.len() && 0 <= j < pkgs[i].post.entries@.len() {
        lemma_adv_post_entries_codes(pkgs, flags, i, j + 1);
    }
}

proof fn lemma_adv_tag_codes(pkgs: Seq<PkgFacts>, flags: RunFlags, i: int)
    ensures
        adv_tag(pkgs, flags, i).st matches St::Finished { code } ==> code == 0,
    decreases pkgs.len() - i,
{
    if 0 <= i < pkgs.len() {
        lemma_adv_tag_codes(pkgs, flags, i + 1);
    } else {
        lemma_adv_post_codes(pkgs, flags, 0);
    }
}

proof fn lemma_adv_publish_codes(pkgs: Seq<PkgFacts>, flags: RunFlags, i: int)
    ensures
        adv_publish(pkgs, flags, i).st matches St::Finished { code } ==> code == 0,
    decreases pkgs.len() - i,
{
    if 0 <= i < pkgs.len() {
        lemma_adv_publish_codes(pkgs, flags, i + 1);
    } else {
        lemma_adv_tag_codes(pkgs, flags, 0);
    }
}

proof fn lemma_adv_rel_entries_codes(pkgs: Seq<PkgFacts>, flags: RunFlags, i: int, j: int)
    ensures
        !(adv_rel_entries(pkgs, flags, i, j).st matches St::Finished { .. }),
    decreases pkgs[i].rel.entries@.len() - j,
{
    if 0 <= i < pkgs.len() && 0 <= j < pkgs[i].rel.entries@.len() {
        lemma_adv_rel_entries_codes(pkgs, flags, i, j + 1);
    }
}

proof fn lemma_adv_phase2_codes(pkgs: Seq<PkgFacts>, flags: RunFlags, i: int)
    ensures
        adv_phase2(pkgs, flags, i).st matches St::Finished { code } ==> code == 0,
    decreases pkgs.len() - i,
{
    if 0 <= i < pkgs.len() {
        lemma_adv_phase2_codes(pkgs, flags, i + 1);
    } else {
        lemma_adv_publish_codes(pkgs, flags, 0);
    }
}

proof fn lemma_after_hook_codes(pkgs: Seq<PkgFacts>, flags: RunFlags, i: int)
    ensures
        after_hook(pkgs, flags, i).st matches St::Finished { code } ==> code == 0,
{
    lemma_adv_phase2_codes(pkgs, flags, i + 1);
}

proof fn lemma_adv_changed_not_finished(pkgs: Seq<PkgFacts>, i: int)
    ensures
        !(adv_changed(pkgs, i) matches St::Finished { .. }),
    decreases pkgs.len() - i,
{
    if 0 <= i < pkgs.len() {
        lemma_adv_changed_not_finished(pkgs, i + 1);
    }
}

/// One transition under dry run never reaches the dirty abort status.
#[verifier::rlimit(50)]
proof fn lemma_step_no_dirty_abort(pkgs: Seq<PkgFacts>, flags: RunFlags, st: St, e: Event)
    requires
        flags.dry_run,
        !(st matches St::Finished { code } && code == 101),
    ensures
        !(spec_step(pkgs, flags, st, e).st matches St::Finished { code } && code == 101),
{
    let r = spec_step(pkgs, flags, st, e).st;
    match st {
        St::GitVersion => {
            lemma_adv_changed_not_finished(pkgs, 0);
        },
        St::DirtyWs => {
            lemma_adv_changed_not_finished(pkgs, 0);
        },
        St::DirtyPkg { .. } => {
            lemma_adv_changed_not_finished(pkgs, 0);
        },
        St::Changed { i } => {
            lemma_adv_changed_not_finished(pkgs, i + 1);
        },
        St::Behind => {
            lemma_adv_phase2_codes(pkgs, flags, 0);
        },
        St::ConfirmSt => {
            lemma_adv_phase2_codes(pkgs, flags, 0);
        },
        St::SetVersion { i } => {
            lemma_adv_rel_entries_codes(pkgs, flags, i as int, 0);
        },
        St::DepEdit { i, j } => {
            lemma_adv_rel_entries_codes(pkgs, flags, i as int, j + 1);
        },
        St::UpdateLock { i } => {
            lemma_after_hook_codes(pkgs, flags, i as int);
        },
        St::Replace { i } => {
            lemma_after_hook_codes(pkgs, flags, i as int);
        },
        St::Hook { i } => {
            lemma_after_hook_codes(pkgs, flags, i as int);
        },
        St::CommitPkg { i } => {
            lemma_adv_phase2_codes(pkgs, flags, i + 1);
        },
        St::CommitWs => {
            lemma_adv_publish_codes(pkgs, flags, 0);
        },
        St::PublishSt { i } => {
            lemma_adv_publish_codes(pkgs, flags, i + 1);
        },
        St::Grace { i } => {
            lemma_adv_publish_codes(pkgs, flags, i + 1);
        },
        St::TagPkg { i } => {
            lemma_adv_tag_codes(pkgs, flags, i + 1);
        },
        St::PostDepEdit { i, j } => {
            lemma_adv_post_entries_codes(pkgs, flags, i as int, j + 1);
        },
        St::PostUpdateLock { i } => {
            lemma_adv_post_codes(pkgs, flags, i + 1);
        },
        St::PostReplace { i } => {
            lemma_adv_post_codes(pkgs, flags, i + 1);
        },
        St::PostCommitPkg { i } => {
            lemma_adv_post_codes(pkgs, flags, i + 1);
        },
        St::PostCommitWs => {
            lemma_push_start_codes(pkgs, flags);
        },
        St::PushTagSt { i } => {
            lemma_adv_push_codes(pkgs, flags, i + 1);
        },
        St::PushPkg { i } => {
            lemma_adv_push_codes(pkgs, flags, i + 1);
        },
        _ => {},
    }
}

/// Under dry run the pipeline never aborts with the dirty-tree status: the
/// dirtiness checks still run and are logged, but the run proceeds.
pub proof fn lemma_dry_run_never_dirty_aborts(
    pkgs: Seq<PkgFacts>,
    flags: RunFlags,
    st: St,
    events: Seq<Event>,
)
    requires
        flags.dry_run,
        !(st matches St::Finished { code } && code == 101),
    ensures
        !(spec_run(pkgs, flags, st, events).end matches RunEnd::Done { code } && code == 101),
    decreases events.len(),
{
    match st {
        St::Finished { .. } => {},
        St::Fatalled { .. } => {},
        _ => {
            if events.len() > 0 {
                lemma_step_no_dirty_abort(pkgs, flags, st, events[0]);
                lemma_dry_run_never_dirty_aborts(
                    pkgs,
                    flags,
                    spec_step(pkgs, flags, st, events[0]).st,
                    events.drop_first(),
                );
            }
        },
    }
}

/// Actions that only observe: the preflight checks.
pub open spec fn is_preflight_check(a: Action) -> bool {
    match a {
        Action::CheckGitVersion => true,
        Action::CheckDirtyWorkspace => true,
        Action::CheckDirtyPackage { .. } => true,
        _ => false,
    }
}

/// A dirty tree outside dry run aborts the whole run with the dirty-tree
/// status before any action beyond the preflight checks, when the
/// workspace is checked as a whole.
pub proof fn lemma_dirty_tree_aborts_consolidated(
    pkgs: Seq<PkgFacts>,
    flags: RunFlags,
    events: Seq<Event>,
)
    requires
        !flags.dry_run,
        flags.consolidate_commits,
        events.len() >= 2,
        ev_flag(events[0]),
        ev_flag(events[1]),
    ensures
        spec_run(pkgs, flags, init_state(), events).end == (RunEnd::Done { code: 101 }),
        forall|j: int|
            0 <= j < spec_run(pkgs, flags, init_state(), events).calls.len()
                ==> is_preflight_check(#[trigger] spec_run(pkgs, flags, init_state(), events).calls[j]),
{
    let st1 = spec_step(pkgs, flags, init_state(), events[0]).st;
    assert(st1 == St::DirtyWs);
    let ev1 = events.drop_first();
    let st2 = spec_step(pkgs, flags, st1, ev1[0]).st;
    assert(ev1[0] == events[1]);
    assert(st2 == (St::Finished { code: 101 }));
    let r2 = spec_run(pkgs, flags, st2, ev1.drop_first());
    assert(r2.calls =~= Seq::<Action>::empty());
    let r1 = spec_run(pkgs, flags, st1, ev1);
    assert(r1.calls =~= seq![Action::CheckDirtyWorkspace]);
    let r0 = spec_run(pkgs, flags, init_state(), events);
    assert(r0.calls =~= seq![Action::CheckGitVersion, Action::CheckDirtyWorkspace]);
    assert(r0.end == (RunEnd::Done { code: 101 }));
}

proof fn lemma_dirty_loop_aborts(pkgs: Seq<PkgFacts>, flags: RunFlags, events: Seq<Event>, i: usize, dirty: bool)
    requires
        !flags.dry_run,
        pkgs.len() <= usize::MAX,
        (i as int) < pkgs.len(),
        events.len() >= pkgs.len() - i,
        dirty || exists|k: int| i <= k < pkgs.len() && ev_flag(#[trigger] events[k - i]),
    ensures
        spec_run(pkgs, flags, St::DirtyPkg { i, dirty }, events).end == (RunEnd::Done {
            code: 101,
        }),
        forall|j: int|
            0 <= j < spec_run(pkgs, flags, St::DirtyPkg { i, dirty }, events).calls.len()
                ==> is_preflight_check(
                #[trigger] spec_run(pkgs, flags, St::DirtyPkg { i, dirty }, events).calls[j],
            ),
    decreases pkgs.len() - i,
{
    let d = ev_flag(events[0]);
    let st2 = spec_step(pkgs, flags, St::DirtyPkg { i, dirty }, events[0]).st;
    if i + 1 < pkgs.len() {
        assert(st2 == (St::DirtyPkg { i: (i + 1) as usize, dirty: dirty || d }));
        assert(dirty || d || exists|k: int|
            i + 1 <= k < pkgs.len() && ev_flag(#[trigger] events.drop_first()[k - (i + 1)])) by {
            if !dirty && !d {
                let k = choose|k: int| i <= k < pkgs.len() && ev_flag(#[trigger] events[k - i]);
                assert(k != i);
                assert(events.drop_first()[k - (i + 1)] == events[k - i]);
            }
        }
        lemma_dirty_loop_aborts(pkgs, flags, events.drop_first(), (i + 1) as usize, dirty || d);
        let r0 = spec_run(pkgs, flags, St::DirtyPkg { i, dirty }, events);
        let r1 = spec_run(pkgs, flags, st2, events.drop_first());
        assert(r0.calls =~= seq![Action::CheckDirtyPackage { pkg: i }] + r1.calls);
        assert forall|j: int| 0 <= j < r0.calls.len() implies is_preflight_check(
            #[trigger] r0.calls[j],
        ) by {
            if j > 0 {
                assert(r0.calls[j] == r1.calls[j - 1]);
            }
        }
    } else {
        assert(dirty || d) by {
            if !dirty {
                let k = choose|k: int| i <= k < pkgs.len() && ev_flag(#[trigger] events[k - i]);
                assert(k == i);
            }
        }
        assert(st2 == (St::Finished { code: 101 }));
        let r0 = spec_run(pkgs, flags, St::DirtyPkg { i, dirty }, events);
        let r1 = spec_run(pkgs, flags, st2, events.drop_first());
        assert(r1.calls =~= Seq::<Action>::empty());
        assert(r0.calls =~= seq![Action::CheckDirtyPackage { pkg: i }]);
        assert(r0.end == (RunEnd::Done { code: 101 }));
    }
}

/// A dirty tree outside dry run aborts the whole run with the dirty-tree
/// status before any action beyond the preflight checks, when packages are
/// checked one by one: it is enough that any one package is dirty.
pub proof fn lemma_dirty_tree_aborts_per_package(
    pkgs: Seq<PkgFacts>,
    flags: RunFlags,
    events: Seq<Event>,
    k: int,
)
    requires
        !flags.dry_run,
        !flags.consolidate_commits,
        pkgs.len() > 0,
        pkgs.len() <= usize::MAX,
        events.len() >= 1 + pkgs.len(),
        ev_flag(events[0]),
        0 <= k < pkgs.len(),
        ev_flag(events[1 + k]),
    ensures
        spec_run(pkgs, flags, init_state(), events).end == (RunEnd::Done { code: 101 }),
        forall|j: int|
            0 <= j < spec_run(pkgs, flags, init_state(), events).calls.len()
                ==> is_preflight_check(#[trigger] spec_run(pkgs, flags, init_state(), events).calls[j]),
{
    let st1 = spec_step(pkgs, flags, init_state(), events[0]).st;
    assert(st1 == (St::DirtyPkg { i: 0, dirty: false }));
    let ev1 = events.drop_first();
    assert(ev1[k] == events[1 + k]);
    assert(exists|kk: int| 0 <= kk < pkgs.len() && ev_flag(#[trigger] ev1[kk - 0])) by {
        assert(ev_flag(ev1[k - 0]));
    }
    lemma_dirty_loop_aborts(pkgs, flags, ev1, 0, false);
    let r0 = spec_run(pkgs, flags, init_state(), events);
    let r1 = spec_run(pkgs, flags, st1, ev1);
    assert(r0.calls =~= seq![Action::CheckGitVersion] + r1.calls);
    assert forall|j: int| 0 <= j < r0.calls.len() implies is_preflight_check(
        #[trigger] r0.calls[j],
    ) by {
        if j > 0 {
            assert(r0.calls[j] == r1.calls[j - 1]);
        }
    }
}

/// Reconciliation facts with the same values.
pub open spec fn rec_eqv(a: RecFacts, b: RecFacts) -> bool {
    a.entries@ == b.entries@ && a.failed == b.failed && a.fatal == b.fatal
}

/// Package facts with the same values.
pub open spec fn pkg_eqv(a: PkgFacts, b: PkgFacts) -> bool {
    &&& a.has_version == b.has_version
    &&& a.has_tag == b.has_tag
    &&& a.has_post == b.has_post
    &&& a.disable_publish == b.disable_publish
    &&& a.default_registry == b.default_registry
    &&& a.disable_push == b.disable_push
    &&& a.has_hook == b.has_hook
    &&& a.has_pre_repl == b.has_pre_repl
    &&& a.has_post_repl == b.has_post_repl
    &&& rec_eqv(a.rel, b.rel)
    &&& rec_eqv(a.post, b.post)
}

/// Two fact lists with the same values, package by package.
pub open spec fn facts_eqv(a: Seq<PkgFacts>, b: Seq<PkgFacts>) -> bool {
    a.len() == b.len() && forall|i: int| 0 <= i < a.len() ==> pkg_eqv(#[trigger] a[i], b[i])
}

proof fn lemma_any_eqv(a: Seq<PkgFacts>, b: Seq<PkgFacts>)
    requires
        facts_eqv(a, b),
    ensures
        any_version(a) == any_version(b),
        any_post(a) == any_post(b),
{
    if any_version(a) {
        let p = choose|p: int| 0 <= p < a.len() && a[p].has_version;
        assert(pkg_eqv(a[p], b[p]));
        assert(any_version(b));
    }
    if any_version(b) {
        let p = choose|p: int| 0 <= p < b.len() && b[p].has_version;
        assert(pkg_eqv(a[p], b[p]));
        assert(any_version(a));
    }
    if any_post(a) {
        let p = choose|p: int| 0 <= p < a.len() && a[p].has_post;
        assert(pkg_eqv(a[p], b[p]));
        assert(any_post(b));
    }
    if any_post(b) {
        let p = choose|p: int| 0 <= p < b.len() && b[p].has_post;
        assert(pkg_eqv(a[p], b[p]));
        assert(any_post(a));
    }
}

proof fn lemma_adv_changed_eqv(a: Seq<PkgFacts>, b: Seq<PkgFacts>, i: int)
    requires
        facts_eqv(a, b),
    ensures
        adv_changed(a, i) == adv_changed(b, i),
    decreases a.len() - i,
{
    if 0 <= i < a.len() {
        assert(pkg_eqv(a[i], b[i]));
        lemma_adv_changed_eqv(a, b, i + 1);
    }
}

proof fn lemma_adv_push_eqv(a: Seq<PkgFacts>, b: Seq<PkgFacts>, flags: RunFlags, i: int)
    requires
        facts_eqv(a, b),
    ensures
        adv_push(a, flags, i) =~= adv_push(b, flags, i),
    decreases a.len() - i,
{
    if 0 <= i < a.len() {
        assert(pkg_eqv(a[i], b[i]));
        lemma_adv_push_eqv(a, b, flags, i + 1);
    }
}

proof fn lemma_push_start_eqv(a: Seq<PkgFacts>, b: Seq<PkgFacts>, flags: RunFlags)
    requires
        facts_eqv(a, b),
    ensures
        push_start(a, flags) =~= push_start(b, flags),
{
    lemma_adv_push_eqv(a, b, flags, 0);
}

proof fn lemma_adv_post_entries_eqv(
    a: Seq<PkgFacts>,
    b: Seq<PkgFacts>,
    flags: RunFlags,
    i: int,
    j: int,
)
    requires
        facts_eqv(a, b),
    ensures
        adv_post_entries(a, flags, i, j) =~= adv_post_entries(b, flags, i, j),
    decreases (if 0 <= i < a.len() {
        a[i].post.entries@.len()
    } else {
        0
    }) - j,
{
    if 0 <= i < a.len() {
        assert(pkg_eqv(a[i], b[i]));
        if 0 <= j < a[i].post.entries@.len() {
            lemma_adv_post_entries_eqv(a, b, flags, i, j + 1);
        }
    }
}

proof fn lemma_adv_post_eqv(a: Seq<PkgFacts>, b: Seq<PkgFacts>, flags: RunFlags, i: int)
    requires
        facts_eqv(a, b),
    ensures
        adv_post(a, flags, i) =~= adv_post(b, flags, i),
    decreases a.len() - i,
{
    lemma_any_eqv(a, b);
    if 0 <= i < a.len() {
        assert(pkg_eqv(a[i], b[i]));
        if a[i].has_post {
            lemma_adv_post_entries_eqv(a, b, flags, i, 0);
        } else {
            lemma_adv_post_eqv(a, b, flags, i + 1);
        }
    } else {
        lemma_push_start_eqv(a, b, flags);
    }
}

proof fn lemma_adv_tag_eqv(a: Seq<PkgFacts>, b: Seq<PkgFacts>, flags: RunFlags, i: int)
    requires
        facts_eqv(a, b),
    ensures
        adv_tag(a, flags, i) =~= adv_tag(b, flags, i),
    decreases a.len() - i,
{
    if 0 <= i < a.len() {
        assert(pkg_eqv(a[i], b[i]));
        lemma_adv_tag_eqv(a, b, flags, i + 1);
    } else {
        lemma_adv_post_eqv(a, b, flags, 0);
    }
}

proof fn lemma_adv_publish_eqv(a: Seq<PkgFacts>, b: Seq<PkgFacts>, flags: RunFlags, i: int)
    requires
        facts_eqv(a, b),
    ensures
        adv_publish(a, flags, i) =~= adv_publish(b, flags, i),
    decreases a.len() - i,
{
    if 0 <= i < a.len() {
        assert(pkg_eqv(a[i], b[i]));
        lemma_adv_publish_eqv(a, b, flags, i + 1);
    } else {
        lemma_adv_tag_eqv(a, b, flags, 0);
    }
}

proof fn lemma_adv_phase2_eqv(a: Seq<PkgFacts>, b: Seq<PkgFacts>, flags: RunFlags, i: int)
    requires
        facts_eqv(a, b),
    ensures
        adv_phase2(a, flags, i) =~= adv_phase2(b, flags, i),
    decreases a.len() - i,
{
    lemma_any_eqv(a, b);
    if 0 <= i < a.len() {
        assert(pkg_eqv(a[i], b[i]));
        lemma_adv_phase2_eqv(a, b, flags, i + 1);
    } else {
        lemma_adv_publish_eqv(a, b, flags, 0);
    }
}

proof fn lemma_adv_rel_entries_eqv(
    a: Seq<PkgFacts>,
    b: Seq<PkgFacts>,
    flags: RunFlags,
    i: int,
    j: int,
)
    requires
        facts_eqv(a, b),
    ensures
        adv_rel_entries(a, flags, i, j) =~= adv_rel_entries(b, flags, i, j),
    decreases (if 0 <= i < a.len() {
        a[i].rel.entries@.len()
    } else {
        0
    }) - j,
{
    if 0 <= i < a.len() {
        assert(pkg_eqv(a[i], b[i]));
        if 0 <= j < a[i].rel.entries@.len() {
            lemma_adv_rel_entries_eqv(a, b, flags, i, j + 1);
        }
    }
}

proof fn lemma_phase2_chain_eqv(a: Seq<PkgFacts>, b: Seq<PkgFacts>, flags: RunFlags, i: int)
    requires
        facts_eqv(a, b),
    ensures
        start_rel_entries(a, flags, i) =~= start_rel_entries(b, flags, i),
        after_lock(a, flags, i) =~= after_lock(b, flags, i),
        after_replace(a, flags, i) =~= after_replace(b, flags, i),
        after_hook(a, flags, i) =~= after_hook(b, flags, i),
        post_after_lock(a, flags, i) =~= post_after_lock(b, flags, i),
        post_after_replace(a, flags, i) =~= post_after_replace(b, flags, i),
        after_push_tag(a, flags, i) =~= after_push_tag(b, flags, i),
{
    if 0 <= i < a.len() {
        assert(pkg_eqv(a[i], b[i]));
    }
    lemma_adv_rel_entries_eqv(a, b, flags, i, 0);
    lemma_adv_phase2_eqv(a, b, flags, i + 1);
    lemma_adv_post_eqv(a, b, flags, i + 1);
    lemma_adv_push_eqv(a, b, flags, i + 1);
}

proof fn lemma_step_eqv(a: Seq<PkgFacts>, b: Seq<PkgFacts>, flags: RunFlags, st: St, e: Event)
    requires
        facts_eqv(a, b),
    ensures
        spec_step(a, flags, st, e) =~= spec_step(b, flags, st, e),
{
    lemma_any_eqv(a, b);
    lemma_adv_changed_eqv(a, b, 0);
    lemma_adv_phase2_eqv(a, b, flags, 0);
    lemma_adv_publish_eqv(a, b, flags, 0);
    lemma_push_start_eqv(a, b, flags);
    match st {
        St::DirtyPkg { i, dirty } => {},
        St::Changed { i } => {
            lemma_adv_changed_eqv(a, b, i + 1);
        },
        St::SetVersion { i } => {
            lemma_phase2_chain_eqv(a, b, flags, i as int);
        },
        St::DepEdit { i, j } => {
            lemma_adv_rel_entries_eqv(a, b, flags, i as int, j + 1);
        },
        St::UpdateLock { i } => {
            lemma_phase2_chain_eqv(a, b, flags, i as int);
        },
        St::Replace { i } => {
            lemma_phase2_chain_eqv(a, b, flags, i as int);
        },
        St::Hook { i } => {
            lemma_phase2_chain_eqv(a, b, flags, i as int);
        },
        St::CommitPkg { i } => {
            lemma_adv_phase2_eqv(a, b, flags, i + 1);
        },
        St::PublishSt { i } => {
            if 0 <= i < a.len() {
                assert(pkg_eqv(a[i as int], b[i as int]));
            }
            lemma_adv_publish_eqv(a, b, flags, i + 1);
        },
        St::Grace { i } => {
            lemma_adv_publish_eqv(a, b, flags, i + 1);
        },
        St::TagPkg { i } => {
            lemma_adv_tag_eqv(a, b, flags, i + 1);
        },
        St::PostDepEdit { i, j } => {
            lemma_adv_post_entries_eqv(a, b, flags, i as int, j + 1);
        },
        St::PostUpdateLock { i } => {
            lemma_phase2_chain_eqv(a, b, flags, i as int);
        },
        St::PostReplace { i } => {
            lemma_phase2_chain_eqv(a, b, flags, i as int);
        },
        St::PostCommitPkg { i } => {
            lemma_adv_post_eqv(a, b, flags, i + 1);
        },
        St::PushTagSt { i } => {
            lemma_phase2_chain_eqv(a, b, flags, i as int);
        },
        St::PushPkg { i } => {
            lemma_adv_push_eqv(a, b, flags, i + 1);
        },
        _ => {},
    }
}

/// The whole run is a function of the facts' values, the flags and the
/// answers: two runs over equal-valued inputs take the same actions, log
/// the same decisions and end the same way.  In particular two dry runs
/// against the same starting state are identical.
pub proof fn lemma_run_depends_only_on_values(
    a: Seq<PkgFacts>,
    b: Seq<PkgFacts>,
    flags: RunFlags,
    st: St,
    events: Seq<Event>,
)
    requires
        facts_eqv(a, b),
    ensures
        spec_run(a, flags, st, events) == spec_run(b, flags, st, events),
    decreases events.len(),
{
    match st {
        St::Finished { .. } => {},
        St::Fatalled { .. } => {},
        _ => {
            if events.len() > 0 {
                lemma_step_eqv(a, b, flags, st, events[0]);
                let sa = spec_step(a, flags, st, events[0]);
                let sb = spec_step(b, flags, st, events[0]);
                assert(sa.st == sb.st);
                lemma_run_depends_only_on_values(a, b, flags, sa.st, events.drop_first());
                assert(spec_run(a, flags, st, events) =~= spec_run(b, flags, st, events));
            }
        },
    }
}

/// Whether an action is justified by the facts: a mutating action is asked
/// only for a package with the corresponding work pending.  In particular
/// a package with no pending release is never rewritten, committed,
/// published or tagged.
pub open spec fn call_guard(pkgs: Seq<PkgFacts>, a: Action) -> bool {
    match a {
        Action::SetVersion { pkg, post } => pkg < pkgs.len() && (if post {
            pkgs[pkg as int].has_post
        } else {
            pkgs[pkg as int].has_version
        }),
        Action::UpdateLock { pkg, post } => pkg < pkgs.len() && (if post {
            pkgs[pkg as int].has_post
        } else {
            pkgs[pkg as int].has_version
        }),
        Action::Commit { pkg, post } => pkg < pkgs.len() && (if post {
            pkgs[pkg as int].has_post
        } else {
            pkgs[pkg as int].has_version
        }),
        Action::ApplyReplacements { pkg, post } => pkg < pkgs.len() && (if post {
            pkgs[pkg as int].has_post && pkgs[pkg as int].has_post_repl
        } else {
            pkgs[pkg as int].has_version && pkgs[pkg as int].has_pre_repl
        }),
        Action::SetDependencyVersion { pkg, entry, post } => pkg < pkgs.len() && (if post {
            pkgs[pkg as int].has_post && entry < pkgs[pkg as int].post.entries@.len()
                && pkgs[pkg as int].post.entries@[entry as int] is Edit
        } else {
            pkgs[pkg as int].has_version && entry < pkgs[pkg as int].rel.entries@.len()
                && pkgs[pkg as int].rel.entries@[entry as int] is Edit
        }),
        Action::RunHook { pkg } => pkg < pkgs.len() && pkgs[pkg as int].has_version
            && pkgs[pkg as int].has_hook,
        Action::Publish { pkg } => pkg < pkgs.len() && pkgs[pkg as int].has_version
            && !pkgs[pkg as int].disable_publish,
        Action::Tag { pkg } => pkg < pkgs.len() && pkgs[pkg as int].has_version
            && pkgs[pkg as int].has_tag,
        Action::PushTag { pkg } => pkg < pkgs.len() && pkgs[pkg as int].has_version
            && pkgs[pkg as int].has_tag && !pkgs[pkg as int].disable_push,
        Action::Push { pkg } => pkg < pkgs.len() && !pkgs[pkg as int].disable_push,
        Action::CheckIndex { pkg } => pkg < pkgs.len() && pkgs[pkg as int].has_version,
        Action::GraceSleep { pkg } => pkg < pkgs.len() && pkgs[pkg as int].has_version,
        Action::CheckChanged { pkg } => pkg < pkgs.len() && pkgs[pkg as int].has_version,
        Action::CheckDirtyPackage { pkg } => pkg < pkgs.len(),
        _ => true,
    }
}

/// The waiting state's own justification: the guard of the action it asks.
pub open spec fn st_ok(pkgs: Seq<PkgFacts>, st: St) -> bool {
    match st {
        St::DirtyPkg { i, .. } => i < pkgs.len(),
        St::Changed { i } => i < pkgs.len() && pkgs[i as int].has_version,
        St::SetVersion { i } => i < pkgs.len() && pkgs[i as int].has_version,
        St::DepEdit { i, j } => i < pkgs.len() && pkgs[i as int].has_version && j
            < pkgs[i as int].rel.entries@.len() && pkgs[i as int].rel.entries@[j as int] is Edit,
        St::UpdateLock { i } => i < pkgs.len() && pkgs[i as int].has_version,
        St::Replace { i } => i < pkgs.len() && pkgs[i as int].has_version
            && pkgs[i as int].has_pre_repl,
        St::Hook { i } => i < pkgs.len() && pkgs[i as int].has_version
            && pkgs[i as int].has_hook,
        St::CommitPkg { i } => i < pkgs.len() && pkgs[i as int].has_version,
        St::PublishSt { i } => i < pkgs.len() && pkgs[i as int].has_version
            && !pkgs[i as int].disable_publish,
        St::IndexCheck { i } => i < pkgs.len() && pkgs[i as int].has_version,
        St::Grace { i } => i < pkgs.len() && pkgs[i as int].has_version,
        St::TagPkg { i } => i < pkgs.len() && pkgs[i as int].has_version
            && pkgs[i as int].has_tag,
        St::PostDepEdit { i, j } => i < pkgs.len() && pkgs[i as int].has_post && j
            < pkgs[i as int].post.entries@.len() && pkgs[i as int].post.entries@[j as int] is Edit,
        St::PostSetVersion { i } => i < pkgs.len() && pkgs[i as int].has_post,
        St::PostUpdateLock { i } => i < pkgs.len() && pkgs[i as int].has_post,
        St::PostReplace { i } => i < pkgs.len() && pkgs[i as int].has_post
            && pkgs[i as int].has_post_repl,
        St::PostCommitPkg { i } => i < pkgs.len() && pkgs[i as int].has_post,
        St::PushTagSt { i } => i < pkgs.len() && pkgs[i as int].has_version
            && pkgs[i as int].has_tag && !pkgs[i as int].disable_push,
        St::PushPkg { i } => i < pkgs.len() && !pkgs[i as int].disable_push,
        _ => true,
    }
}

proof fn lemma_ask_guard(pkgs: Seq<PkgFacts>, st: St)
    requires
        st_ok(pkgs, st),
    ensures
        call_guard(pkgs, spec_ask(st)),
{
}

proof fn lemma_adv_changed_ok(pkgs: Seq<PkgFacts>, i: int)
    requires
        pkgs.len() <= usize::MAX,
    ensures
        st_ok(pkgs, adv_changed(pkgs, i)),
    decreases pkgs.len() - i,
{
    if 0 <= i < pkgs.len() {
        lemma_adv_changed_ok(pkgs, i + 1);
    }
}

proof fn lemma_adv_push_ok(pkgs: Seq<PkgFacts>, flags: RunFlags, i: int)
    requires
        pkgs.len() <= usize::MAX,
    ensures
        st_ok(pkgs, adv_push(pkgs, flags, i).st),
    decreases pkgs.len() - i,
{
    if 0 <= i < pkgs.len() {
        lemma_adv_push_ok(pkgs, flags, i + 1);
    }
}

proof fn lemma_push_start_ok(pkgs: Seq<PkgFacts>, flags: RunFlags)
    requires
        pkgs.len() <= usize::MAX,
    ensures
        st_ok(pkgs, push_start(pkgs, flags).st),
{
    lemma_adv_push_ok(pkgs, flags, 0);
}

proof fn lemma_adv_post_entries_ok(pkgs: Seq<PkgFacts>, flags: RunFlags, i: int, j: int)
    requires
        pkgs.len() <= usize::MAX,
        0 <= i < pkgs.len(),
        pkgs[i].has_post,
    ensures
        st_ok(pkgs, adv_post_entries(pkgs, flags, i, j).st),
    decreases pkgs[i].post.entries@.len() - j,
{
    vstd::std_specs::vec::axiom_spec_len(&pkgs[i].post.entries);
    if 0 <= j < pkgs[i].post.entries@.len() {
        lemma_adv_post_entries_ok(pkgs, flags, i, j + 1);
    }
}

proof fn lemma_adv_post_ok(pkgs: Seq<PkgFacts>, flags: RunFlags, i: int)
    requires
        pkgs.len() <= usize::MAX,
    ensures
        st_ok(pkgs, adv_post(pkgs, flags, i).st),
    decreases pkgs.len() - i,
{
    if 0 <= i < pkgs.len() {
        if pkgs[i].has_post {
            if !(pkgs[i].post.fatal is Some) {
                lemma_adv_post_entries_ok(pkgs, flags, i, 0);
            }
        } else {
            lemma_adv_post_ok(pkgs, flags, i + 1);
        }
    } else {
        lemma_push_start_ok(pkgs, flags);
    }
}

proof fn lemma_adv_tag_ok(pkgs: Seq<PkgFacts>, flags: RunFlags, i: int)
    requires
        pkgs.len() <= usize::MAX,
    ensures
        st_ok(pkgs, adv_tag(pkgs, flags, i).st),
    decreases pkgs.len() - i,
{
    if 0 <= i < pkgs.len() {
        lemma_adv_tag_ok(pkgs, flags, i + 1);
    } else {
        lemma_adv_post_ok(pkgs, flags, 0);
    }
}

proof fn lemma_adv_publish_ok(pkgs: Seq<PkgFacts>, flags: RunFlags, i: int)
    requires
        pkgs.len() <= usize::MAX,
    ensures
        st_ok(pkgs, adv_publish(pkgs, flags, i).st),
    decreases pkgs.len() - i,
{
    if 0 <= i < pkgs.len() {
        lemma_adv_publish_ok(pkgs, flags, i + 1);
    } else {
        lemma_adv_tag_ok(pkgs, flags, 0);
    }
}

proof fn lemma_adv_phase2_ok(pkgs: Seq<PkgFacts>, flags: RunFlags, i: int)
    requires
        pkgs.len() <= usize::MAX,
    ensures
        st_ok(pkgs, adv_phase2(pkgs, flags, i).st),
    decreases pkgs.len() - i,
{
    if 0 <= i < pkgs.len() {
        lemma_adv_phase2_ok(pkgs, flags, i + 1);
    } else {
        lemma_adv_publish_ok(pkgs, flags, 0);
    }
}

proof fn lemma_adv_rel_entries_ok(pkgs: Seq<PkgFacts>, flags: RunFlags, i: int, j: int)
    requires
        pkgs.len() <= usize::MAX,
        0 <= i < pkgs.len(),
        pkgs[i].has_version,
    ensures
        st_ok(pkgs, adv_rel_entries(pkgs, flags, i, j).st),
    decreases pkgs[i].rel.entries@.len() - j,
{
    vstd::std_specs::vec::axiom_spec_len(&pkgs[i].rel.entries);
    if 0 <= j < pkgs[i].rel.entries@.len() {
        lemma_adv_rel_entries_ok(pkgs, flags, i, j + 1);
    }
}

proof fn lemma_after_hook_ok(pkgs: Seq<PkgFacts>, flags: RunFlags, i: int)
    requires
        pkgs.len() <= usize::MAX,
        0 <= i < pkgs.len(),
        pkgs[i].has_version,
    ensures
        st_ok(pkgs, after_hook(pkgs, flags, i).st),
        st_ok(pkgs, after_replace(pkgs, flags, i).st),
        st_ok(pkgs, after_lock(pkgs, flags, i).st),
{
    lemma_adv_phase2_ok(pkgs, flags, i + 1);
}

proof fn lemma_post_after_ok(pkgs: Seq<PkgFacts>, flags: RunFlags, i: int)
    requires
        pkgs.len() <= usize::MAX,
        0 <= i < pkgs.len(),
        pkgs[i].has_post,
    ensures
        st_ok(pkgs, post_after_replace(pkgs, flags, i).st),
        st_ok(pkgs, post_after_lock(pkgs, flags, i).st),
{
    lemma_adv_post_ok(pkgs, flags, i + 1);
}

/// One transition keeps the machine justified.
#[verifier::rlimit(50)]
proof fn lemma_step_ok(pkgs: Seq<PkgFacts>, flags: RunFlags, st: St, e: Event)
    requires
        pkgs.len() <= usize::MAX,
        st_ok(pkgs, st),
    ensures
        st_ok(pkgs, spec_step(pkgs, flags, st, e).st),
{
    match st {
        St::GitVersion => {
            lemma_adv_changed_ok(pkgs, 0);
        },
        St::DirtyWs => {
            lemma_adv_changed_ok(pkgs, 0);
        },
        St::DirtyPkg { .. } => {
            lemma_adv_changed_ok(pkgs, 0);
        },
        St::Changed { i } => {
            lemma_adv_changed_ok(pkgs, i + 1);
        },
        St::Behind => {
            lemma_adv_phase2_ok(pkgs, flags, 0);
        },
        St::ConfirmSt => {
            lemma_adv_phase2_ok(pkgs, flags, 0);
        },
        St::SetVersion { i } => {
            if ev_flag(e) && !(pkgs[i as int].rel.fatal is Some) {
                lemma_adv_rel_entries_ok(pkgs, flags, i as int, 0);
            }
        },
        St::DepEdit { i, j } => {
            if ev_flag(e) {
                lemma_adv_rel_entries_ok(pkgs, flags, i as int, j + 1);
            }
        },
        St::UpdateLock { i } => {
            lemma_after_hook_ok(pkgs, flags, i as int);
        },
        St::Replace { i } => {
            lemma_after_hook_ok(pkgs, flags, i as int);
        },
        St::Hook { i } => {
            lemma_after_hook_ok(pkgs, flags, i as int);
        },
        St::CommitPkg { i } => {
            lemma_adv_phase2_ok(pkgs, flags, i + 1);
        },
        St::CommitWs => {
            lemma_adv_publish_ok(pkgs, flags, 0);
        },
        St::PublishSt { i } => {
            lemma_adv_publish_ok(pkgs, flags, i + 1);
        },
        St::Grace { i } => {
            lemma_adv_publish_ok(pkgs, flags, i + 1);
        },
        St::TagPkg { i } => {
            lemma_adv_tag_ok(pkgs, flags, i + 1);
        },
        St::PostDepEdit { i, j } => {
            if ev_flag(e) {
                lemma_adv_post_entries_ok(pkgs, flags, i as int, j + 1);
            }
        },
        St::PostUpdateLock { i } => {
            lemma_post_after_ok(pkgs, flags, i as int);
        },
        St::PostReplace { i } => {
            lemma_post_after_ok(pkgs, flags, i as int);
        },
        St::PostCommitPkg { i } => {
            lemma_adv_post_ok(pkgs, flags, i + 1);
        },
        St::PostCommitWs => {
            lemma_push_start_ok(pkgs, flags);
        },
        St::PushTagSt { i } => {
            lemma_adv_push_ok(pkgs, flags, i + 1);
        },
        St::PushPkg { i } => {
            lemma_adv_push_ok(pkgs, flags, i + 1);
        },
        _ => {},
    }
}

/// Every action of a run from a justified state is justified: work is only
/// ever asked for a package whose plan calls for it.  A package with no
/// pending release is never rewritten, committed, published or tagged.
pub proof fn lemma_run_calls_guarded(
    pkgs: Seq<PkgFacts>,
    flags: RunFlags,
    st: St,
    events: Seq<Event>,
)
    requires
        pkgs.len() <= usize::MAX,
        st_ok(pkgs, st),
    ensures
        forall|j: int|
            0 <= j < spec_run(pkgs, flags, st, events).calls.len() ==> call_guard(
                pkgs,
                #[trigger] spec_run(pkgs, flags, st, events).calls[j],
            ),
    decreases events.len(),
{
    match st {
        St::Finished { .. } => {},
        St::Fatalled { .. } => {},
        _ => {
            lemma_ask_guard(pkgs, st);
            if events.len() == 0 {
            } else {
                let s = spec_step(pkgs, flags, st, events[0]);
                lemma_step_ok(pkgs, flags, st, events[0]);
                lemma_run_calls_guarded(pkgs, flags, s.st, events.drop_first());
                let r0 = spec_run(pkgs, flags, st, events);
                let r1 = spec_run(pkgs, flags, s.st, events.drop_first());
                assert forall|j: int| 0 <= j < r0.calls.len() implies call_guard(
                    pkgs,
                    #[trigger] r0.calls[j],
                ) by {
                    if j > 0 {
                        assert(r0.calls[j] == r1.calls[j - 1]);
                    }
                }
            }
        },
    }
}

/// The reconciliation outcomes of one package, holding the corrected
/// requirement texts that the driver writes back on an edit action.
#[derive(Debug)]
pub struct PlanOutcomes {
    pub rel: ReconcileOutcome,
    pub post: ReconcileOutcome,
}

/// The entries of a reconciliation's specified value, empty on error.
pub open spec fn outcome_entries(
    s: Result<Seq<ReconcileEntryV>, FatalError>,
) -> Seq<ReconcileEntryV> {
    match s {
        Result::Ok(es) => es,
        Result::Err(_) => Seq::empty(),
    }
}

/// The effective dependent-version policy of a plan.
pub open spec fn spec_policy(p: crate::plan::PackageReleaseV) -> DependentVersion {
    or_default(p.config.dependent_version, DependentVersion::Upgrade)
}

/// Whether one package's facts mirror its plan.
pub open spec fn pkg_facts_match(f: PkgFacts, p: crate::plan::PackageReleaseV) -> bool {
    &&& f.has_version == (p.version is Some)
    &&& f.has_tag == (p.tag is Some)
    &&& f.has_post == (p.post_version is Some)
    &&& f.disable_publish == or_default(p.config.disable_publish, false)
    &&& f.default_registry == (p.config.registry is None)
    &&& f.disable_push == or_default(p.config.disable_push, false)
    &&& f.has_hook == (p.config.pre_release_hook is Some)
    &&& f.has_pre_repl == (or_default(p.config.pre_release_replacements, Seq::empty()).len() > 0)
    &&& f.has_post_repl == (or_default(p.config.post_release_replacements, Seq::empty()).len()
        > 0)
    &&& match p.version {
        Option::Some(v) => rec_facts_match(&f.rel, spec_reconcile(p.dependents, spec_policy(p), v)),
        Option::None => rec_facts_empty(&f.rel),
    }
    &&& match p.post_version {
        Option::Some(v) => rec_facts_match(
            &f.post,
            spec_reconcile(p.dependents, spec_policy(p), v),
        ),
        Option::None => rec_facts_empty(&f.post),
    }
}

/// Whether one package's stored outcomes carry the entries of its plan's
/// reconciliations.
pub open spec fn outcomes_match(o: PlanOutcomes, p: crate::plan::PackageReleaseV) -> bool {
    &&& entries_view(o.rel.entries@) == (match p.version {
        Option::Some(v) => outcome_entries(spec_reconcile(p.dependents, spec_policy(p), v)),
        Option::None => Seq::<ReconcileEntryV>::empty(),
    })
    &&& entries_view(o.post.entries@) == (match p.post_version {
        Option::Some(v) => outcome_entries(spec_reconcile(p.dependents, spec_policy(p), v)),
        Option::None => Seq::<ReconcileEntryV>::empty(),
    })
}

fn map_entries(entries: &Vec<ReconcileEntry>) -> (r: Vec<FactEntry>)
    ensures
        r@ == entries_view(entries@).map_values(|e: ReconcileEntryV| fact_of_entry(e)),
{
    let ghost ev = entries_view(entries@);
    proof {
        assert(ev.len() == entries@.len());
        assert(forall|j: int| 0 <= j < entries@.len() ==> ev[j] == entries@[j]@);
    }
    let mut out: Vec<FactEntry> = Vec::new();
    let mut k: usize = 0;
    while k < entries.len()
        invariant
            k <= entries@.len(),
            ev == entries_view(entries@),
            ev.len() == entries@.len(),
            forall|j: int| 0 <= j < entries@.len() ==> ev[j] == entries@[j]@,
            out@.len() == k,
            forall|j: int| 0 <= j < k ==> out@[j] == fact_of_entry(ev[j]),
        decreases entries@.len() - k,
    {
        let f = match &entries[k] {
            ReconcileEntry::WarnMismatch { dep } => FactEntry::Warn { dep: *dep },
            ReconcileEntry::FailMismatch { dep } => FactEntry::Fail { dep: *dep },
            ReconcileEntry::Edit { dep, .. } => FactEntry::Edit { dep: *dep },
        };
        out.push(f);
        k += 1;
    }
    proof {
        assert(out@ =~= ev.map_values(|e: ReconcileEntryV| fact_of_entry(e)));
    }
    out
}

fn empty_rec() -> (r: (RecFacts, ReconcileOutcome))
    ensures
        rec_facts_empty(&r.0),
        entries_view(r.1.entries@) == Seq::<ReconcileEntryV>::empty(),
{
    let fe: Vec<FactEntry> = Vec::new();
    let oe: Vec<ReconcileEntry> = Vec::new();
    proof {
        assert(fe@ =~= Seq::<FactEntry>::empty());
        assert(entries_view(oe@) =~= Seq::<ReconcileEntryV>::empty());
    }
    (
        RecFacts { entries: fe, failed: false, fatal: Option::None },
        ReconcileOutcome { entries: oe, failed: false },
    )
}

fn build_rec(
    deps: &Vec<crate::plan::Dependent>,
    policy: DependentVersion,
    v: &crate::version::Version,
) -> (r: (RecFacts, ReconcileOutcome))
    ensures
        rec_facts_match(&r.0, spec_reconcile(crate::plan::dependents_view(deps@), policy, v@)),
        entries_view(r.1.entries@) == outcome_entries(
            spec_reconcile(crate::plan::dependents_view(deps@), policy, v@),
        ),
{
    match reconcile_dependents(deps, policy, v) {
        Result::Ok(o) => {
            let facts = RecFacts {
                entries: map_entries(&o.entries),
                failed: o.failed,
                fatal: Option::None,
            };
            (facts, o)
        },
        Result::Err(e) => {
            let facts_entries: Vec<FactEntry> = Vec::new();
            let out_entries: Vec<ReconcileEntry> = Vec::new();
            proof {
                assert(facts_entries@ =~= Seq::<FactEntry>::empty());
                assert(entries_view(out_entries@) =~= Seq::<ReconcileEntryV>::empty());
            }
            (
                RecFacts { entries: facts_entries, failed: false, fatal: Option::Some(e) },
                ReconcileOutcome { entries: out_entries, failed: false },
            )
        },
    }
}

/// Distills the plans into the index-level facts the machine runs on, and
/// keeps each package's reconciliation outcomes for the driver to apply.
pub fn prepare_input(
    plans: &Vec<PackageRelease>,
    ws_config: &Config,
    args: &ReleaseRequest,
) -> (r: (RunInput, Vec<PlanOutcomes>))
    ensures
        r.0.flags == (RunFlags {
            dry_run: args.dry_run,
            no_confirm: args.no_confirm,
            consolidate_commits: or_default(ws_config@.consolidate_commits, false),
            consolidate_pushes: or_default(ws_config@.consolidate_pushes, false),
            ws_disable_push: or_default(ws_config@.disable_push, false),
        }),
        r.0.pkgs@.len() == plans@.len(),
        r.1@.len() == plans@.len(),
        forall|i: int| 0 <= i < plans@.len() ==> pkg_facts_match(#[trigger] r.0.pkgs@[i], plans@[i]@),
        forall|i: int| 0 <= i < plans@.len() ==> outcomes_match(#[trigger] r.1@[i], plans@[i]@),
{
    let flags = RunFlags {
        dry_run: args.dry_run,
        no_confirm: args.no_confirm,
        consolidate_commits: ws_config.consolidate_commits(),
        consolidate_pushes: ws_config.consolidate_pushes(),
        ws_disable_push: ws_config.disable_push(),
    };
    let mut pkgs: Vec<PkgFacts> = Vec::new();
    let mut outcomes: Vec<PlanOutcomes> = Vec::new();
    let mut i: usize = 0;
    while i < plans.len()
        invariant
            i <= plans@.len(),
            pkgs@.len() == i,
            outcomes@.len() == i,
            forall|j: int| 0 <= j < i ==> pkg_facts_match(#[trigger] pkgs@[j], plans@[j]@),
            forall|j: int| 0 <= j < i ==> outcomes_match(#[trigger] outcomes@[j], plans@[j]@),
        decreases plans@.len() - i,
    {
        let plan = &plans[i];
        let policy = plan.config.dependent_version();
        let (rel_facts, rel_out) = match &plan.version {
            Option::Some(v) => build_rec(&plan.dependents, policy, v),
            Option::None => empty_rec(),
        };
        let (post_facts, post_out) = match &plan.post_version {
            Option::Some(v) => build_rec(&plan.dependents, policy, v),
            Option::None => empty_rec(),
        };
        let facts = PkgFacts {
            has_version: plan.version.is_some(),
            has_tag: plan.tag.is_some(),
            has_post: plan.post_version.is_some(),
            disable_publish: plan.config.disable_publish(),
            default_registry: plan.config.registry.is_none(),
            disable_push: plan.config.disable_push(),
            has_hook: plan.config.pre_release_hook.is_some(),
            has_pre_repl: (match &plan.config.pre_release_replacements {
                Option::Some(l) => l.len() > 0,
                Option::None => false,
            }),
            has_post_repl: (match &plan.config.post_release_replacements {
                Option::Some(l) => l.len() > 0,
                Option::None => false,
            }),
            rel: rel_facts,
            post: post_facts,
        };
        let out = PlanOutcomes { rel: rel_out, post: post_out };
        proof {
            assert(pkg_facts_match(facts, plans@[i as int]@));
            assert(outcomes_match(out, plans@[i as int]@));
        }
        pkgs.push(facts);
        outcomes.push(out);
        i += 1;
    }
    (RunInput { pkgs, flags }, outcomes)
}

/// The outputs of one pipeline run.
#[derive(Debug)]
pub struct PipelineRun {
    /// Every action asked for, in order; the last one is unanswered when
    /// the run ended waiting.
    pub calls: Vec<Action>,
    /// Every decision logged, in order.
    pub logs: Vec<LogLine>,
    pub end: RunEnd,
}

/// Runs the pipeline over the planned packages, feeding it the given
/// answers in order, per [`spec_run`]: the run's actions, logged decisions
/// and final word are a function of the package facts, the flags and the
/// answers alone.
#[verifier::rlimit(100)]
pub fn run_pipeline(input: &RunInput, events: &Vec<Event>) -> (r: PipelineRun)
    ensures
        r.calls@ == spec_run(input.pkgs@, input.flags, init_state(), events@).calls,
        r.logs@ == spec_run(input.pkgs@, input.flags, init_state(), events@).logs,
        r.end == spec_run(input.pkgs@, input.flags, init_state(), events@).end,
{
    let ghost full = spec_run(input.pkgs@, input.flags, init_state(), events@);
    let mut calls: Vec<Action> = Vec::new();
    let mut logs: Vec<LogLine> = Vec::new();
    let mut st: St = St::GitVersion;
    let mut k: usize = 0;
    proof {
        assert(events@.skip(0) =~= events@);
        assert(Seq::<Action>::empty() + full.calls =~= full.calls);
        assert(Seq::<LogLine>::empty() + full.logs =~= full.logs);
    }
    loop
        invariant
            k <= events@.len(),
            st_wf(input.pkgs@, st),
            full == spec_run(input.pkgs@, input.flags, init_state(), events@),
            ({
                let rest = spec_run(input.pkgs@, input.flags, st, events@.skip(k as int));
                full.calls == calls@ + rest.calls && full.logs == logs@ + rest.logs && full.end
                    == rest.end
            }),
        decreases events@.len() - k,
    {
        match st {
            St::Finished { code } => {
                proof {
                    let rest = spec_run(input.pkgs@, input.flags, st, events@.skip(k as int));
                    assert(rest.calls =~= Seq::<Action>::empty());
                    assert(calls@ =~= calls@ + rest.calls);
                    assert(logs@ =~= logs@ + rest.logs);
                }
                return PipelineRun { calls, logs, end: RunEnd::Done { code } };
            },
            St::Fatalled { err } => {
                proof {
                    let rest = spec_run(input.pkgs@, input.flags, st, events@.skip(k as int));
                    assert(rest.calls =~= Seq::<Action>::empty());
                    assert(calls@ =~= calls@ + rest.calls);
                    assert(logs@ =~= logs@ + rest.logs);
                }
                return PipelineRun { calls, logs, end: RunEnd::Fatal { err } };
            },
            _ => {},
        }
        let a = pipeline_ask(st);
        calls.push(a);
        if k >= events.len() {
            proof {
                let rest = spec_run(input.pkgs@, input.flags, st, events@.skip(k as int));
                assert(events@.skip(k as int).len() == 0);
                assert(rest.calls =~= seq![spec_ask(st)]);
                assert(calls@ =~= (calls@.drop_last() + rest.calls));
                assert(logs@ =~= logs@ + rest.logs);
            }
            return PipelineRun { calls, logs, end: RunEnd::Waiting };
        }
        let ghost pre_calls = calls@.drop_last();
        let ghost evs = events@.skip(k as int);
        let e = events[k];
        let (st2, mut step_logs) = pipeline_step(input, st, e);
        proof {
            let rest = spec_run(input.pkgs@, input.flags, st, evs);
            let s = spec_step(input.pkgs@, input.flags, st, evs[0]);
            let rest2 = spec_run(input.pkgs@, input.flags, s.st, evs.drop_first());
            assert(e == evs[0]);
            assert(rest.calls =~= seq![spec_ask(st)] + rest2.calls);
            assert(rest.logs =~= s.logs + rest2.logs);
            assert(calls@ =~= pre_calls + seq![spec_ask(st)]);
            assert(full.calls =~= calls@ + rest2.calls);
            assert(full.logs =~= (logs@ + s.logs) + rest2.logs);
            assert(evs.drop_first() =~= events@.skip(k + 1));
        }
        logs.append(&mut step_logs);
        st = st2;
        k += 1;
    }
}

} // verus!
