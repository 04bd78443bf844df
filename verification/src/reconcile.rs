//! Reconciliation of dependents' version requirements with a new version,
//! under the five-way dependent-version policy.

use vstd::prelude::*;
use crate::config::DependentVersion;
use crate::error::FatalError;
use crate::plan::Dependent;
use crate::plan::DependentV;
use crate::plan::dependents_view;
use crate::requirement::set_requirement;
use crate::requirement::spec_req_matches;
use crate::requirement::spec_set_requirement;
use crate::version::Version;
use crate::version::VersionV;

verus! {

/// One recorded decision about one dependent.
#[derive(Debug)]
pub enum ReconcileEntry {
    /// The requirement no longer accepts the new version; observational.
    WarnMismatch { dep: usize },
    /// The requirement no longer accepts the new version; the run must fail
    /// after every dependent has been examined.
    FailMismatch { dep: usize },
    /// The requirement is to be rewritten to the given text.
    Edit { dep: usize, new_req: String },
}

/// The mathematical value of a [`ReconcileEntry`].
#[verifier::ext_equal]
pub ghost enum ReconcileEntryV {
    WarnMismatch { dep: usize },
    FailMismatch { dep: usize },
    Edit { dep: usize, new_req: Seq<char> },
}

impl View for ReconcileEntry {
    type V = ReconcileEntryV;

    open spec fn view(&self) -> ReconcileEntryV {
        match self {
            ReconcileEntry::WarnMismatch { dep } => ReconcileEntryV::WarnMismatch { dep: *dep },
            ReconcileEntry::FailMismatch { dep } => ReconcileEntryV::FailMismatch { dep: *dep },
            ReconcileEntry::Edit { dep, new_req } => ReconcileEntryV::Edit {
                dep: *dep,
                new_req: new_req@,
            },
        }
    }
}

/// The values of an entry list.
pub open spec fn entries_view(l: Seq<ReconcileEntry>) -> Seq<ReconcileEntryV> {
    l.map_values(|e: ReconcileEntry| e@)
}

/// What one dependent contributes under the policy.
pub open spec fn spec_reconcile_one(
    d: DependentV,
    policy: DependentVersion,
    v: VersionV,
    i: usize,
) -> Result<Seq<ReconcileEntryV>, FatalError> {
    match policy {
        DependentVersion::Ignore => Result::Ok(Seq::empty()),
        DependentVersion::Warn => {
            if !spec_req_matches(d.req, v) {
                Result::Ok(seq![ReconcileEntryV::WarnMismatch { dep: i }])
            } else {
                Result::Ok(Seq::empty())
            }
        },
        DependentVersion::Error => {
            if !spec_req_matches(d.req, v) {
                Result::Ok(seq![ReconcileEntryV::FailMismatch { dep: i }])
            } else {
                Result::Ok(Seq::empty())
            }
        },
        DependentVersion::Fix => {
            if spec_req_matches(d.req, v) {
                Result::Ok(Seq::empty())
            } else {
                match spec_set_requirement(d.req, v) {
                    Result::Err(e) => Result::Err(e),
                    Result::Ok(Option::None) => Result::Ok(Seq::empty()),
                    Result::Ok(Option::Some(s)) => Result::Ok(
                        seq![ReconcileEntryV::Edit { dep: i, new_req: s }],
                    ),
                }
            }
        },
        DependentVersion::Upgrade => match spec_set_requirement(d.req, v) {
            Result::Err(e) => Result::Err(e),
            Result::Ok(Option::None) => Result::Ok(Seq::empty()),
            Result::Ok(Option::Some(s)) => Result::Ok(
                seq![ReconcileEntryV::Edit { dep: i, new_req: s }],
            ),
        },
    }
}

/// The decisions for all dependents from `i` on, in order; the first
/// unsupported requirement aborts the computation.
pub open spec fn spec_reconcile_from(
    deps: Seq<DependentV>,
    policy: DependentVersion,
    v: VersionV,
    i: int,
) -> Result<Seq<ReconcileEntryV>, FatalError>
    decreases deps.len() - i,
{
    if i < 0 || i >= deps.len() {
        Result::Ok(Seq::empty())
    } else {
        match spec_reconcile_one(deps[i], policy, v, i as usize) {
            Result::Err(e) => Result::Err(e),
            Result::Ok(head) => match spec_reconcile_from(deps, policy, v, i + 1) {
                Result::Err(e) => Result::Err(e),
                Result::Ok(rest) => Result::Ok(head + rest),
            },
        }
    }
}

/// The decisions for all dependents.
pub open spec fn spec_reconcile(
    deps: Seq<DependentV>,
    policy: DependentVersion,
    v: VersionV,
) -> Result<Seq<ReconcileEntryV>, FatalError> {
    spec_reconcile_from(deps, policy, v, 0)
}

/// Whether any entry demands failure.
pub open spec fn spec_has_fail(es: Seq<ReconcileEntryV>) -> bool {
    exists|j: int| 0 <= j < es.len() && es[j] is FailMismatch
}

/// The decisions for all dependents, with the aggregate failure verdict.
#[derive(Debug)]
pub struct ReconcileOutcome {
    pub entries: Vec<ReconcileEntry>,
    /// Whether the run must fail once every dependent has been examined.
    pub failed: bool,
}

/// Relates an executable outcome to its specified value.
pub open spec fn reconcile_matches(
    r: Result<ReconcileOutcome, FatalError>,
    s: Result<Seq<ReconcileEntryV>, FatalError>,
) -> bool {
    match (r, s) {
        (Result::Ok(o), Result::Ok(es)) => entries_view(o.entries@) == es && o.failed
            == spec_has_fail(es),
        (Result::Err(e1), Result::Err(e2)) => e1 == e2,
        _ => false,
    }
}

/// The prefix `pre` prepended to the entries of `r`, when `r` succeeded.
pub open spec fn concat_ok(
    pre: Seq<ReconcileEntryV>,
    r: Result<Seq<ReconcileEntryV>, FatalError>,
) -> Result<Seq<ReconcileEntryV>, FatalError> {
    match r {
        Result::Ok(s) => Result::Ok(pre + s),
        Result::Err(e) => Result::Err(e),
    }
}

/// Applies the configured policy to every dependent of a plan, per
/// [`spec_reconcile`]: mismatches are recorded (and under `Error` aggregated
/// into a failure verdict), and under `Fix`/`Upgrade` a corrected
/// requirement text is produced for each dependent that needs one.
pub fn reconcile_dependents(
    deps: &Vec<Dependent>,
    policy: DependentVersion,
    v: &Version,
) -> (r: Result<ReconcileOutcome, FatalError>)
    ensures
        reconcile_matches(r, spec_reconcile(dependents_view(deps@), policy, v@)),
{
    let ghost dv = dependents_view(deps@);
    proof {
        assert(dv.len() == deps@.len());
        assert(forall|j: int| 0 <= j < deps@.len() ==> dv[j] == deps@[j]@);
    }
    let mut entries: Vec<ReconcileEntry> = Vec::new();
    let mut failed: bool = false;
    let mut i: usize = 0;
    while i < deps.len()
        invariant
            i <= deps@.len(),
            dv == dependents_view(deps@),
            dv.len() == deps@.len(),
            forall|j: int| 0 <= j < deps@.len() ==> dv[j] == deps@[j]@,
            spec_reconcile(dv, policy, v@) == concat_ok(
                entries_view(entries@),
                spec_reconcile_from(dv, policy, v@, i as int),
            ),
            failed == spec_has_fail(entries_view(entries@)),
        decreases deps@.len() - i,
    {
        let ghost pre = entries_view(entries@);
        let ghost head_spec = spec_reconcile_one(dv[i as int], policy, v@, i);
        let d = &deps[i];
        let mut head_err: Option<FatalError> = Option::None;
        match policy {
            DependentVersion::Ignore => {},
            DependentVersion::Warn => {
                if !d.req.matches(v) {
                    entries.push(ReconcileEntry::WarnMismatch { dep: i });
                }
            },
            DependentVersion::Error => {
                if !d.req.matches(v) {
                    entries.push(ReconcileEntry::FailMismatch { dep: i });
                    failed = true;
                }
            },
            DependentVersion::Fix => {
                if !d.req.matches(v) {
                    match set_requirement(&d.req, v) {
                        Result::Err(e) => {
                            head_err = Option::Some(e);
                        },
                        Result::Ok(Option::None) => {},
                        Result::Ok(Option::Some(s)) => {
                            entries.push(ReconcileEntry::Edit { dep: i, new_req: s });
                        },
                    }
                }
            },
            DependentVersion::Upgrade => {
                match set_requirement(&d.req, v) {
                    Result::Err(e) => {
                        head_err = Option::Some(e);
                    },
                    Result::Ok(Option::None) => {},
                    Result::Ok(Option::Some(s)) => {
                        entries.push(ReconcileEntry::Edit { dep: i, new_req: s });
                    },
                }
            },
        }
        if let Option::Some(e) = head_err {
            proof {
                assert(head_spec == Result::<Seq<ReconcileEntryV>, FatalError>::Err(e));
                assert(spec_reconcile_from(dv, policy, v@, i as int) == Result::<
                    Seq<ReconcileEntryV>,
                    FatalError,
                >::Err(e));
            }
            return Result::Err(e);
        }
        proof {
            let head = match head_spec {
                Result::Ok(h) => h,
                Result::Err(_) => Seq::empty(),
            };
            assert(head_spec == Result::<Seq<ReconcileEntryV>, FatalError>::Ok(head));
            assert(entries_view(entries@) =~= pre + head);
            assert(spec_reconcile_from(dv, policy, v@, i as int) == concat_ok(
                head,
                spec_reconcile_from(dv, policy, v@, i + 1),
            ));
            match spec_reconcile_from(dv, policy, v@, i + 1) {
                Result::Ok(rest) => {
                    assert(pre + (head + rest) =~= (pre + head) + rest);
                },
                Result::Err(_) => {},
            }
            let newv = entries_view(entries@);
            assert(newv == pre + head);
            if spec_has_fail(pre) {
                let j = choose|j: int| 0 <= j < pre.len() && pre[j] is FailMismatch;
                assert(newv[j] == pre[j]);
                assert(spec_has_fail(newv));
            }
            if head.len() > 0 && head[0] is FailMismatch {
                assert(newv[pre.len() as int] == head[0]);
                assert(spec_has_fail(newv));
            }
            if !spec_has_fail(pre) && !(head.len() > 0 && head[0] is FailMismatch) {
                if spec_has_fail(newv) {
                    let j = choose|j: int| 0 <= j < newv.len() && newv[j] is FailMismatch;
                    if j < pre.len() {
                        assert(pre[j] == newv[j]);
                    } else {
                        assert(newv[j] == head[j - pre.len()]);
                    }
                    assert(false);
                }
            }
            assert(failed == spec_has_fail(newv));
        }
        i += 1;
    }
    proof {
        assert(spec_reconcile_from(dv, policy, v@, i as int) == Result::<
            Seq<ReconcileEntryV>,
            FatalError,
        >::Ok(Seq::empty()));
        assert(entries_view(entries@) + Seq::<ReconcileEntryV>::empty() =~= entries_view(
            entries@,
        ));
    }
    Result::Ok(ReconcileOutcome { entries, failed })
}

} // verus!
