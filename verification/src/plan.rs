//! The workspace snapshot and the per-package release plan.

use vstd::prelude::*;
use crate::config::Config;
use crate::config::ConfigV;
use crate::config::empty_config;
use crate::config::or_default;
use crate::config::spec_merge;
use crate::error::FatalError;
use crate::requirement::VersionReq;
use crate::requirement::VersionReqV;
use crate::template::Template;
use crate::template::TemplateV;
use crate::template::pat_at;
use crate::template::pat_at_exec;
use crate::template::spec_render;
use crate::version::Ident;
use crate::version::IdentV;
use crate::version::TargetVersion;
use crate::version::Version;
use crate::version::VersionV;
use crate::version::idents_view;
use crate::version::spec_decide;
use crate::version::spec_version_str;
use crate::version::str_eq;
use crate::version::version_bounded;
use crate::version::version_str;
use crate::version::post_increment;
use crate::Features;

verus! {

/// One declared dependency of a workspace member on another package.
#[derive(Debug)]
pub struct DepDecl {
    pub name: String,
    pub req: VersionReq,
}

/// The mathematical value of a [`DepDecl`].
#[verifier::ext_equal]
pub ghost struct DepDeclV {
    pub name: Seq<char>,
    pub req: VersionReqV,
}

impl View for DepDecl {
    type V = DepDeclV;

    open spec fn view(&self) -> DepDeclV {
        DepDeclV { name: self.name@, req: self.req@ }
    }
}

/// A read-only snapshot of one workspace member.
#[derive(Debug)]
pub struct Member {
    pub name: String,
    /// The member's manifest file.
    pub manifest_path: String,
    /// The directory holding the manifest.
    pub package_path: String,
    pub version: Version,
    /// Declared dependencies that target other workspace members.
    pub dependencies: Vec<DepDecl>,
    /// The manifest's publish flag; `false` forces publishing off.
    pub publish: bool,
}

/// The mathematical value of a [`Member`].
#[verifier::ext_equal]
pub ghost struct MemberV {
    pub name: Seq<char>,
    pub manifest_path: Seq<char>,
    pub package_path: Seq<char>,
    pub version: VersionV,
    pub dependencies: Seq<DepDeclV>,
    pub publish: bool,
}

impl View for Member {
    type V = MemberV;

    open spec fn view(&self) -> MemberV {
        MemberV {
            name: self.name@,
            manifest_path: self.manifest_path@,
            package_path: self.package_path@,
            version: self.version@,
            dependencies: self.dependencies@.map_values(|d: DepDecl| d@),
            publish: self.publish,
        }
    }
}

/// The values of a member list.
pub open spec fn members_view(l: Seq<Member>) -> Seq<MemberV> {
    l.map_values(|m: Member| m@)
}

/// One dependent of the package under release: the member that depends on
/// it, and the requirement it declares.
#[derive(Debug)]
pub struct Dependent {
    pub pkg: usize,
    pub req: VersionReq,
}

/// The mathematical value of a [`Dependent`].
#[verifier::ext_equal]
pub ghost struct DependentV {
    pub pkg: usize,
    pub req: VersionReqV,
}

impl View for Dependent {
    type V = DependentV;

    open spec fn view(&self) -> DependentV {
        DependentV { pkg: self.pkg, req: self.req@ }
    }
}

/// The values of a dependent list.
pub open spec fn dependents_view(l: Seq<Dependent>) -> Seq<DependentV> {
    l.map_values(|d: Dependent| d@)
}

/// The first declared dependency of `m` whose name is `name`, from `k` on.
pub open spec fn first_dep_from(deps: Seq<DepDeclV>, name: Seq<char>, k: int) -> Option<int>
    decreases deps.len() - k,
{
    if k < 0 || k >= deps.len() {
        Option::None
    } else if deps[k].name == name {
        Option::Some(k)
    } else {
        first_dep_from(deps, name, k + 1)
    }
}

/// The dependents of member `pkg`, scanning members from `i` on: each
/// member whose dependency list names `pkg`'s package, with the requirement
/// of its first such declaration.
pub open spec fn spec_dependents_from(ws: Seq<MemberV>, pkg: int, i: int) -> Seq<DependentV>
    decreases ws.len() - i,
{
    if i < 0 || i >= ws.len() || !(0 <= pkg < ws.len()) {
        Seq::empty()
    } else {
        let rest = spec_dependents_from(ws, pkg, i + 1);
        match first_dep_from(ws[i].dependencies, ws[pkg].name, 0) {
            Option::Some(k) => Seq::empty().push(
                DependentV { pkg: i as usize, req: ws[i].dependencies[k].req },
            ) + rest,
            Option::None => rest,
        }
    }
}

/// The dependents of member `pkg`.
pub open spec fn spec_dependents(ws: Seq<MemberV>, pkg: int) -> Seq<DependentV> {
    spec_dependents_from(ws, pkg, 0)
}

fn find_first_dep(deps: &Vec<DepDecl>, name: &str, k: usize) -> (r: Option<usize>)
    ensures
        (match r {
            Option::Some(j) => first_dep_from(
                deps@.map_values(|d: DepDecl| d@),
                name@,
                k as int,
            ) == Option::Some(j as int) && j < deps@.len(),
            Option::None => first_dep_from(deps@.map_values(|d: DepDecl| d@), name@, k as int)
                is None,
        }),
    decreases deps@.len() - k,
{
    let ghost dv = deps@.map_values(|d: DepDecl| d@);
    proof {
        assert(dv.len() == deps@.len());
        assert(forall|j: int| 0 <= j < deps@.len() ==> dv[j] == deps@[j]@);
    }
    if k >= deps.len() {
        Option::None
    } else if str_eq(deps[k].name.as_str(), name) {
        Option::Some(k)
    } else {
        find_first_dep(deps, name, k + 1)
    }
}

/// Finds the same-workspace dependents of member `pkg`, per
/// [`spec_dependents`].
pub fn find_dependents(ws: &Vec<Member>, pkg: usize) -> (r: Vec<Dependent>)
    requires
        pkg < ws@.len(),
    ensures
        dependents_view(r@) == spec_dependents(members_view(ws@), pkg as int),
{
    let ghost wv = members_view(ws@);
    proof {
        assert(wv.len() == ws@.len());
        assert(forall|j: int| 0 <= j < ws@.len() ==> wv[j] == ws@[j]@);
    }
    let mut out: Vec<Dependent> = Vec::new();
    let mut i: usize = ws.len();
    // Build from the back so the result follows the recursive description.
    while i > 0
        invariant
            i <= ws@.len(),
            pkg < ws@.len(),
            wv == members_view(ws@),
            wv.len() == ws@.len(),
            forall|j: int| 0 <= j < ws@.len() ==> wv[j] == ws@[j]@,
            dependents_view(out@) == spec_dependents_from(wv, pkg as int, i as int),
        decreases i,
    {
        i = i - 1;
        match find_first_dep(&ws[i].dependencies, ws[pkg].name.as_str(), 0) {
            Option::Some(k) => {
                let d = Dependent { pkg: i, req: ws[i].dependencies[k].req.clone_req() };
                let mut out2: Vec<Dependent> = Vec::new();
                out2.push(d);
                let mut rest = out;
                out2.append(&mut rest);
                out = out2;
                proof {
                    assert(ws@[i as int]@.dependencies == wv[i as int].dependencies);
                    assert(dependents_view(out@) =~= spec_dependents_from(
                        wv,
                        pkg as int,
                        i as int,
                    ));
                }
            },
            Option::None => {
                proof {
                    assert(dependents_view(out@) =~= spec_dependents_from(
                        wv,
                        pkg as int,
                        i as int,
                    ));
                }
            },
        }
    }
    out
}

/// Component-wise path prefix: `base` is a prefix of `p` and the next
/// character, if any, is a separator.  Paths are taken normalized, without
/// trailing separators.
pub open spec fn path_starts_with(p: Seq<char>, base: Seq<char>) -> bool {
    pat_at(p, 0, base) && (p.len() == base.len() || p[base.len() as int] == '/')
}

/// Tests [`path_starts_with`].
pub fn path_starts_with_exec(p: &str, base: &str) -> (r: bool)
    ensures
        r == path_starts_with(p@, base@),
{
    if !pat_at_exec(p, 0, base) {
        return false;
    }
    let plen = p.unicode_len();
    let blen = base.unicode_len();
    if plen == blen {
        true
    } else {
        p.get_char(blen) == '/'
    }
}

/// The package paths of members lying strictly inside `base`, scanning
/// members from `i` on.
pub open spec fn spec_exclude_paths_from(ws: Seq<MemberV>, base: Seq<char>, i: int) -> Seq<
    Seq<char>,
>
    decreases ws.len() - i,
{
    if i < 0 || i >= ws.len() {
        Seq::empty()
    } else {
        let rest = spec_exclude_paths_from(ws, base, i + 1);
        if ws[i].package_path != base && path_starts_with(ws[i].package_path, base) {
            Seq::empty().push(ws[i].package_path) + rest
        } else {
            rest
        }
    }
}

/// The package paths of members nested under the package at `base`: their
/// changes must not count as changes of that package.
pub open spec fn spec_exclude_paths(ws: Seq<MemberV>, base: Seq<char>) -> Seq<Seq<char>> {
    spec_exclude_paths_from(ws, base, 0)
}

/// One path that changed since the previous tag, with the verdict of the
/// configured path-exclusion globs on it.
#[derive(Debug)]
pub struct ChangedFile {
    pub path: String,
    /// Whether the exclusion globs ignore this path.
    pub ignored: bool,
}

/// The mathematical value of a [`ChangedFile`].
#[verifier::ext_equal]
pub ghost struct ChangedFileV {
    pub path: Seq<char>,
    pub ignored: bool,
}

impl View for ChangedFile {
    type V = ChangedFileV;

    open spec fn view(&self) -> ChangedFileV {
        ChangedFileV { path: self.path@, ignored: self.ignored }
    }
}

/// Whether a changed path counts for the package: not ignored by the
/// globs, and not inside a nested member.
pub open spec fn spec_keep_changed(c: ChangedFileV, excludes: Seq<Seq<char>>) -> bool {
    !c.ignored && !(exists|e: int| 0 <= e < excludes.len() && path_starts_with(c.path, #[trigger] excludes[e]))
}

/// The kept changed paths, from position `i` on.
pub open spec fn spec_filter_changed_from(
    l: Seq<ChangedFileV>,
    excludes: Seq<Seq<char>>,
    i: int,
) -> Seq<Seq<char>>
    decreases l.len() - i,
{
    if i < 0 || i >= l.len() {
        Seq::empty()
    } else if spec_keep_changed(l[i], excludes) {
        Seq::empty().push(l[i].path) + spec_filter_changed_from(l, excludes, i + 1)
    } else {
        spec_filter_changed_from(l, excludes, i + 1)
    }
}

/// The first position holding the lock file's path, from `i` on.
pub open spec fn spec_first_lock(l: Seq<Seq<char>>, lock: Seq<char>, i: int) -> Option<int>
    decreases l.len() - i,
{
    if i < 0 || i >= l.len() {
        Option::None
    } else if l[i] == lock {
        Option::Some(i)
    } else {
        spec_first_lock(l, lock, i + 1)
    }
}

/// The changed paths that matter, and whether the lock file was set aside:
/// the lock file alone changing is a known benign case, so its first
/// occurrence is removed (the last entry takes its place).
pub open spec fn spec_filter_changed(
    l: Seq<ChangedFileV>,
    excludes: Seq<Seq<char>>,
    lock: Seq<char>,
) -> (Seq<Seq<char>>, bool) {
    let kept = spec_filter_changed_from(l, excludes, 0);
    match spec_first_lock(kept, lock, 0) {
        Option::Some(ix) => (kept.update(ix, kept.last()).drop_last(), true),
        Option::None => (kept, false),
    }
}

fn filter_changed_from(changed: &Vec<ChangedFile>, excludes: &Vec<String>, i: usize) -> (r: Vec<
    String,
>)
    ensures
        crate::git::strs_view(r@) == spec_filter_changed_from(
            changed@.map_values(|c: ChangedFile| c@),
            crate::git::strs_view(excludes@),
            i as int,
        ),
    decreases changed@.len() - i,
{
    let ghost cv = changed@.map_values(|c: ChangedFile| c@);
    let ghost ev = crate::git::strs_view(excludes@);
    proof {
        assert(cv.len() == changed@.len());
        assert(forall|j: int| 0 <= j < changed@.len() ==> cv[j] == changed@[j]@);
        assert(ev.len() == excludes@.len());
        assert(forall|j: int| 0 <= j < excludes@.len() ==> ev[j] == excludes@[j]@);
    }
    if i >= changed.len() {
        let r: Vec<String> = Vec::new();
        proof {
            assert(crate::git::strs_view(r@) =~= spec_filter_changed_from(cv, ev, i as int));
        }
        return r;
    }
    let c = &changed[i];
    let mut in_subcrate: bool = false;
    let mut e: usize = 0;
    while e < excludes.len()
        invariant
            e <= excludes@.len(),
            ev == crate::git::strs_view(excludes@),
            ev.len() == excludes@.len(),
            forall|j: int| 0 <= j < excludes@.len() ==> ev[j] == excludes@[j]@,
            i < changed@.len(),
            cv[i as int] == changed@[i as int]@,
            c == &changed@[i as int],
            c.path@ == cv[i as int].path,
            in_subcrate == (exists|j: int|
                0 <= j < e && path_starts_with(cv[i as int].path, #[trigger] ev[j])),
        decreases excludes@.len() - e,
    {
        if path_starts_with_exec(c.path.as_str(), excludes[e].as_str()) {
            proof {
                assert(path_starts_with(cv[i as int].path, ev[e as int]));
            }
            in_subcrate = true;
        }
        e += 1;
    }
    let keep = !c.ignored && !in_subcrate;
    proof {
        assert(keep == spec_keep_changed(cv[i as int], ev));
    }
    let rest = filter_changed_from(changed, excludes, i + 1);
    if keep {
        let mut out: Vec<String> = Vec::new();
        out.push(c.path.clone());
        let mut tail = rest;
        out.append(&mut tail);
        proof {
            assert(crate::git::strs_view(out@) =~= spec_filter_changed_from(cv, ev, i as int));
        }
        out
    } else {
        proof {
            assert(crate::git::strs_view(rest@) =~= spec_filter_changed_from(cv, ev, i as int));
        }
        rest
    }
}

/// The outcome of the changed-files probe after filtering.
#[derive(Debug)]
pub struct FilteredChanges {
    /// The changed paths that matter for the package.
    pub files: Vec<String>,
    /// Whether the lock file was set aside as a known benign change.
    pub lock_excluded: bool,
}

/// Filters the changed paths of one package, per [`spec_filter_changed`]:
/// paths ignored by the globs or inside nested members are dropped, and
/// the lock file is set aside as a known benign change.
pub fn filter_changed(
    changed: &Vec<ChangedFile>,
    excludes: &Vec<String>,
    lock_path: &str,
) -> (r: FilteredChanges)
    ensures
        crate::git::strs_view(r.files@) == spec_filter_changed(
            changed@.map_values(|c: ChangedFile| c@),
            crate::git::strs_view(excludes@),
            lock_path@,
        ).0,
        r.lock_excluded == spec_filter_changed(
            changed@.map_values(|c: ChangedFile| c@),
            crate::git::strs_view(excludes@),
            lock_path@,
        ).1,
{
    let ghost cv = changed@.map_values(|c: ChangedFile| c@);
    let ghost ev = crate::git::strs_view(excludes@);
    let mut files = filter_changed_from(changed, excludes, 0);
    let ghost kept = crate::git::strs_view(files@);
    proof {
        assert(kept.len() == files@.len());
        assert(forall|j: int| 0 <= j < files@.len() ==> kept[j] == files@[j]@);
    }
    let mut lock_ix: Option<usize> = Option::None;
    let mut k: usize = 0;
    while k < files.len() && lock_ix.is_none()
        invariant
            k <= files@.len(),
            kept == crate::git::strs_view(files@),
            kept.len() == files@.len(),
            forall|j: int| 0 <= j < files@.len() ==> kept[j] == files@[j]@,
            match lock_ix {
                Option::Some(ix) => ix < kept.len() && spec_first_lock(kept, lock_path@, 0)
                    == Option::Some(ix as int),
                Option::None => spec_first_lock(kept, lock_path@, 0) == spec_first_lock(
                    kept,
                    lock_path@,
                    k as int,
                ),
            },
        decreases (if lock_ix is None {
            1int
        } else {
            0int
        }), files@.len() - k,
    {
        proof {
            assert(kept[k as int] == files@[k as int]@);
        }
        if str_eq(files[k].as_str(), lock_path) {
            proof {
                assert(kept[k as int] == lock_path@);
                assert(spec_first_lock(kept, lock_path@, k as int) == Option::Some(k as int));
            }
            lock_ix = Option::Some(k);
        } else {
            k += 1;
        }
    }
    match lock_ix {
        Option::Some(ix) => {
            let _ = files.swap_remove(ix);
            proof {
                assert(crate::git::strs_view(files@) =~= kept.update(
                    ix as int,
                    kept.last(),
                ).drop_last());
            }
            FilteredChanges { files, lock_excluded: true }
        },
        Option::None => {
            proof {
                assert(spec_first_lock(kept, lock_path@, k as int) is None);
            }
            FilteredChanges { files, lock_excluded: false }
        },
    }
}

/// What the user asked for on the command line.
#[derive(Debug)]
pub struct ReleaseRequest {
    /// The requested bump level or absolute version.
    pub level_or_version: TargetVersion,
    /// Build metadata to stamp onto a changed version.
    pub metadata: Option<Vec<Ident>>,
    /// An explicit previous-tag override, trusted verbatim.
    pub prev_tag_name: Option<String>,
    pub dry_run: bool,
    pub no_confirm: bool,
}

/// The mathematical value of a [`ReleaseRequest`].
#[verifier::ext_equal]
pub ghost struct ReleaseRequestV {
    pub level_or_version: crate::version::TargetVersionV,
    pub metadata: Option<Seq<IdentV>>,
    pub prev_tag_name: Option<Seq<char>>,
    pub dry_run: bool,
    pub no_confirm: bool,
}

impl View for ReleaseRequest {
    type V = ReleaseRequestV;

    open spec fn view(&self) -> ReleaseRequestV {
        ReleaseRequestV {
            level_or_version: self.level_or_version@,
            metadata: match self.metadata {
                Option::Some(m) => Option::Some(idents_view(m@)),
                Option::None => Option::None,
            },
            prev_tag_name: crate::template::opt_str_view(self.prev_tag_name),
            dry_run: self.dry_run,
            no_confirm: self.no_confirm,
        }
    }
}

/// The feature selection of a plan, as a value.
pub ghost enum FeaturesV {
    Nothing,
    Selective(Seq<Seq<char>>),
    All,
}

impl View for Features {
    type V = FeaturesV;

    open spec fn view(&self) -> FeaturesV {
        match self {
            Features::Nothing => FeaturesV::Nothing,
            Features::Selective(l) => FeaturesV::Selective(crate::git::strs_view(l@)),
            Features::All => FeaturesV::All,
        }
    }
}

/// The immutable release plan of one package.
#[derive(Debug)]
pub struct PackageRelease {
    /// The member's index in the workspace snapshot.
    pub pkg: usize,
    pub name: String,
    pub manifest_path: String,
    pub package_path: String,
    /// The effective, fully layered configuration.
    pub config: Config,
    /// Paths of members nested under this one, excluded from its changes.
    pub crate_excludes: Vec<String>,
    pub prev_version: Version,
    pub prev_version_string: String,
    /// The tag marking the previous release, used as the history boundary.
    pub prev_tag: String,
    /// The decided next version; absent means no release for this package.
    pub version: Option<Version>,
    pub version_string: Option<String>,
    /// The tag to create; absent means tagging is disabled.
    pub tag: Option<String>,
    /// The development version to move to after the release.
    pub post_version: Option<Version>,
    pub post_version_string: Option<String>,
    /// Same-workspace dependents to reconcile; populated only for a
    /// pending release.
    pub dependents: Vec<Dependent>,
    pub features: Features,
}

/// The mathematical value of a [`PackageRelease`].
#[verifier::ext_equal]
pub ghost struct PackageReleaseV {
    pub pkg: usize,
    pub name: Seq<char>,
    pub manifest_path: Seq<char>,
    pub package_path: Seq<char>,
    pub config: ConfigV,
    pub crate_excludes: Seq<Seq<char>>,
    pub prev_version: VersionV,
    pub prev_version_string: Seq<char>,
    pub prev_tag: Seq<char>,
    pub version: Option<VersionV>,
    pub version_string: Option<Seq<char>>,
    pub tag: Option<Seq<char>>,
    pub post_version: Option<VersionV>,
    pub post_version_string: Option<Seq<char>>,
    pub dependents: Seq<DependentV>,
    pub features: FeaturesV,
}

/// The value of an optional version.
pub open spec fn opt_version_view(o: Option<Version>) -> Option<VersionV> {
    match o {
        Option::Some(v) => Option::Some(v@),
        Option::None => Option::None,
    }
}

impl View for PackageRelease {
    type V = PackageReleaseV;

    open spec fn view(&self) -> PackageReleaseV {
        PackageReleaseV {
            pkg: self.pkg,
            name: self.name@,
            manifest_path: self.manifest_path@,
            package_path: self.package_path@,
            config: self.config@,
            crate_excludes: crate::git::strs_view(self.crate_excludes@),
            prev_version: self.prev_version@,
            prev_version_string: self.prev_version_string@,
            prev_tag: self.prev_tag@,
            version: opt_version_view(self.version),
            version_string: crate::template::opt_str_view(self.version_string),
            tag: crate::template::opt_str_view(self.tag),
            post_version: opt_version_view(self.post_version),
            post_version_string: crate::template::opt_str_view(self.post_version_string),
            dependents: dependents_view(self.dependents@),
            features: self.features@,
        }
    }
}

/// The fully layered configuration: built-in defaults, then the discovered
/// file snapshot, then the explicit custom snapshot, then the command-line
/// snapshot; a `publish = false` manifest flag forces publishing off.
pub open spec fn spec_effective_config(
    file: Option<ConfigV>,
    custom: Option<ConfigV>,
    argsc: ConfigV,
    manifest_publish: bool,
) -> ConfigV {
    let m1 = match file {
        Option::Some(c) => spec_merge(empty_config(), c),
        Option::None => empty_config(),
    };
    let m2 = match custom {
        Option::Some(c) => spec_merge(m1, c),
        Option::None => m1,
    };
    let m3 = spec_merge(m2, argsc);
    if !manifest_publish {
        ConfigV { disable_publish: Option::Some(true), ..m3 }
    } else {
        m3
    }
}

/// The rendered tag text: the tag-prefix template is rendered first, then
/// handed to the tag-name template as the prefix value.
pub open spec fn spec_tag_text(
    cfg: ConfigV,
    is_root: bool,
    name: Seq<char>,
    prev_s: Seq<char>,
    base_s: Seq<char>,
) -> Seq<char> {
    let ctx0 = TemplateV {
        prev_version: Option::Some(prev_s),
        version: Option::Some(base_s),
        next_version: Option::None,
        crate_name: Option::Some(name),
        tag_name: Option::None,
        prefix: Option::None,
        date: Option::None,
    };
    let prefix = spec_render(
        or_default(
            cfg.tag_prefix,
            if is_root {
                ""@
            } else {
                "{{crate_name}}-"@
            },
        ),
        ctx0,
    );
    spec_render(
        or_default(cfg.tag_name, "{{prefix}}v{{version}}"@),
        TemplateV { prefix: Option::Some(prefix), ..ctx0 },
    )
}

/// Whether the request's absolute target, if any, can still be incremented.
pub open spec fn request_bounded(args: ReleaseRequestV) -> bool {
    match args.level_or_version {
        crate::version::TargetVersionV::Absolute(t) => version_bounded(t),
        _ => true,
    }
}

/// What the plan builder decides, as a value: `Ok(None)` means releasing is
/// disabled for this package by configuration; an unsupported version
/// request is the only error.
pub open spec fn spec_load(
    args: ReleaseRequestV,
    git_root: Seq<char>,
    ws: Seq<MemberV>,
    pkg: int,
    file: Option<ConfigV>,
    custom: Option<ConfigV>,
    argsc: ConfigV,
) -> Result<Option<PackageReleaseV>, FatalError> {
    let m = ws[pkg];
    let cfg = spec_effective_config(file, custom, argsc, m.publish);
    if or_default(cfg.disable_release, false) {
        Result::Ok(Option::None)
    } else {
        let is_root = git_root == m.package_path;
        let prev_s = spec_version_str(m.version);
        let prev_tag = match args.prev_tag_name {
            Option::Some(t) => t,
            Option::None => spec_tag_text(cfg, is_root, m.name, prev_s, prev_s),
        };
        match spec_decide(args.level_or_version, m.version, args.metadata) {
            Result::Err(e) => Result::Err(e),
            Result::Ok(version) => {
                let is_pre = match version {
                    Option::Some(v) => v.pre.len() > 0,
                    Option::None => false,
                };
                let base = match version {
                    Option::Some(v) => v,
                    Option::None => m.version,
                };
                let base_s = spec_version_str(base);
                Result::Ok(
                    Option::Some(
                        PackageReleaseV {
                            pkg: pkg as usize,
                            name: m.name,
                            manifest_path: m.manifest_path,
                            package_path: m.package_path,
                            config: cfg,
                            crate_excludes: spec_exclude_paths(ws, m.package_path),
                            prev_version: m.version,
                            prev_version_string: prev_s,
                            prev_tag,
                            version,
                            version_string: match version {
                                Option::Some(v) => Option::Some(spec_version_str(v)),
                                Option::None => Option::None,
                            },
                            tag: if or_default(cfg.disable_tag, false) {
                                Option::None
                            } else {
                                Option::Some(spec_tag_text(cfg, is_root, m.name, prev_s, base_s))
                            },
                            post_version: if !is_pre && !or_default(cfg.no_dev_version, false) {
                                Option::Some(
                                    crate::version::spec_post(
                                        base,
                                        or_default(cfg.dev_version_ext, "alpha"@),
                                    ),
                                )
                            } else {
                                Option::None
                            },
                            post_version_string: if !is_pre && !or_default(
                                cfg.no_dev_version,
                                false,
                            ) {
                                Option::Some(
                                    spec_version_str(
                                        crate::version::spec_post(
                                            base,
                                            or_default(cfg.dev_version_ext, "alpha"@),
                                        ),
                                    ),
                                )
                            } else {
                                Option::None
                            },
                            dependents: match version {
                                Option::Some(_) => spec_dependents(ws, pkg),
                                Option::None => Seq::empty(),
                            },
                            features: if or_default(cfg.enable_all_features, false) {
                                FeaturesV::All
                            } else {
                                let l = or_default(cfg.enable_features, Seq::empty());
                                if l.len() == 0 {
                                    FeaturesV::Nothing
                                } else {
                                    FeaturesV::Selective(l)
                                }
                            },
                        },
                    ),
                )
            },
        }
    }
}

/// Relates an executable plan decision to its specified value.
pub open spec fn load_matches(
    r: Result<Option<PackageRelease>, FatalError>,
    s: Result<Option<PackageReleaseV>, FatalError>,
) -> bool {
    match (r, s) {
        (Result::Ok(Option::None), Result::Ok(Option::None)) => true,
        (Result::Ok(Option::Some(p)), Result::Ok(Option::Some(q))) => p@ == q,
        (Result::Err(e1), Result::Err(e2)) => e1 == e2,
        _ => false,
    }
}

impl PackageRelease {
    /// Builds the release plan for member `pkg`, per [`spec_load`]: layers
    /// the configuration, computes the previous and next versions, the tag
    /// names, the post-release development version, the dependents to
    /// reconcile and the feature selection.
    pub fn load(
        args: &ReleaseRequest,
        git_root: &str,
        ws: &Vec<Member>,
        pkg: usize,
        file_config: Option<&Config>,
        custom_config: Option<&Config>,
        args_config: &Config,
    ) -> (r: Result<Option<PackageRelease>, FatalError>)
        requires
            pkg < ws@.len(),
            version_bounded(ws@[pkg as int]@.version),
            ws@[pkg as int]@.version.patch + 1 < u64::MAX,
            request_bounded(args@),
        ensures
            load_matches(
                r,
                spec_load(
                    args@,
                    git_root@,
                    members_view(ws@),
                    pkg as int,
                    match file_config {
                        Option::Some(c) => Option::Some(c@),
                        Option::None => Option::None,
                    },
                    match custom_config {
                        Option::Some(c) => Option::Some(c@),
                        Option::None => Option::None,
                    },
                    args_config@,
                ),
            ),
    {
        let ghost wv = members_view(ws@);
        proof {
            assert(wv.len() == ws@.len());
            assert(forall|j: int| 0 <= j < ws@.len() ==> wv[j] == ws@[j]@);
        }
        let member = &ws[pkg];
        let mut config = Config::new();
        if let Option::Some(c) = file_config {
            config.update(c);
        }
        if let Option::Some(c) = custom_config {
            config.update(c);
        }
        config.update(args_config);
        if !member.publish {
            config.disable_publish = Option::Some(true);
        }
        let ghost cfg = spec_effective_config(
            match file_config {
                Option::Some(c) => Option::Some(c@),
                Option::None => Option::None,
            },
            match custom_config {
                Option::Some(c) => Option::Some(c@),
                Option::None => Option::None,
            },
            args_config@,
            member.publish,
        );
        proof {
            assert(config@ =~= cfg);
        }
        if config.disable_release() {
            return Result::Ok(Option::None);
        }
        let is_root = str_eq(git_root, member.package_path.as_str());
        let prev_version = member.version.clone();
        let prev_version_string = version_str(&prev_version);
        let prev_tag: String = match &args.prev_tag_name {
            Option::Some(t) => t.clone(),
            Option::None => {
                render_tag_text(
                    &config,
                    is_root,
                    member.name.as_str(),
                    prev_version_string.as_str(),
                    prev_version_string.as_str(),
                )
            },
        };
        let version = match args.level_or_version.bump(
            &prev_version,
            match &args.metadata {
                Option::Some(m) => Option::Some(m),
                Option::None => Option::None,
            },
        ) {
            Result::Ok(v) => v,
            Result::Err(e) => {
                return Result::Err(e);
            },
        };
        let is_pre = match &version {
            Option::Some(v) => v.is_prerelease(),
            Option::None => false,
        };
        let dependents: Vec<Dependent> = match &version {
            Option::Some(_) => find_dependents(ws, pkg),
            Option::None => Vec::new(),
        };
        let version_string: Option<String> = match &version {
            Option::Some(v) => Option::Some(version_str(v)),
            Option::None => Option::None,
        };
        let base_string: String = match &version_string {
            Option::Some(s) => s.clone(),
            Option::None => prev_version_string.clone(),
        };
        let tag: Option<String> = if config.disable_tag() {
            Option::None
        } else {
            Option::Some(
                render_tag_text(
                    &config,
                    is_root,
                    member.name.as_str(),
                    prev_version_string.as_str(),
                    base_string.as_str(),
                ),
            )
        };
        let post_version: Option<Version> = if !is_pre && !config.no_dev_version() {
            let ext = config.dev_version_ext();
            let base: &Version = match &version {
                Option::Some(v) => v,
                Option::None => &prev_version,
            };
            Option::Some(post_increment(base, ext.as_str()))
        } else {
            Option::None
        };
        let post_version_string: Option<String> = match &post_version {
            Option::Some(v) => Option::Some(version_str(v)),
            Option::None => Option::None,
        };
        let features: Features = if config.enable_all_features() {
            Features::All
        } else {
            let l = config.enable_features();
            if l.len() == 0 {
                Features::Nothing
            } else {
                Features::Selective(l)
            }
        };
        let crate_excludes = exclude_paths(ws, member.package_path.as_str());
        let plan = PackageRelease {
            pkg,
            name: member.name.clone(),
            manifest_path: member.manifest_path.clone(),
            package_path: member.package_path.clone(),
            config,
            crate_excludes,
            prev_version,
            prev_version_string,
            prev_tag,
            version,
            version_string,
            tag,
            post_version,
            post_version_string,
            dependents,
            features,
        };
        proof {
            let s = spec_load(
                args@,
                git_root@,
                wv,
                pkg as int,
                match file_config {
                    Option::Some(c) => Option::Some(c@),
                    Option::None => Option::None,
                },
                match custom_config {
                    Option::Some(c) => Option::Some(c@),
                    Option::None => Option::None,
                },
                args_config@,
            );
            assert(s matches Result::Ok(o) && o matches Option::Some(q) && plan@ =~= q);
        }
        Result::Ok(Option::Some(plan))
    }
}

/// Renders the tag text for one package, per [`spec_tag_text`].
pub fn render_tag_text(
    config: &Config,
    is_root: bool,
    name: &str,
    prev_s: &str,
    base_s: &str,
) -> (r: String)
    ensures
        r@ == spec_tag_text(config@, is_root, name@, prev_s@, base_s@),
{
    let mut template = Template::new();
    template.prev_version = Option::Some(String::from_str(prev_s));
    template.version = Option::Some(String::from_str(base_s));
    template.crate_name = Option::Some(String::from_str(name));
    let tag_prefix_tmpl = config.tag_prefix(is_root);
    let prefix = template.render(tag_prefix_tmpl.as_str());
    template.prefix = Option::Some(prefix);
    let tag_name_tmpl = config.tag_name();
    let r = template.render(tag_name_tmpl.as_str());
    proof {
        assert(r@ =~= spec_tag_text(config@, is_root, name@, prev_s@, base_s@));
    }
    r
}

/// Collects the nested-member paths to exclude, per [`spec_exclude_paths`].
pub fn exclude_paths(ws: &Vec<Member>, base: &str) -> (r: Vec<String>)
    ensures
        crate::git::strs_view(r@) == spec_exclude_paths(members_view(ws@), base@),
{
    let ghost wv = members_view(ws@);
    proof {
        assert(wv.len() == ws@.len());
        assert(forall|j: int| 0 <= j < ws@.len() ==> wv[j] == ws@[j]@);
    }
    let mut out: Vec<String> = Vec::new();
    let mut i: usize = ws.len();
    while i > 0
        invariant
            i <= ws@.len(),
            wv == members_view(ws@),
            wv.len() == ws@.len(),
            forall|j: int| 0 <= j < ws@.len() ==> wv[j] == ws@[j]@,
            crate::git::strs_view(out@) == spec_exclude_paths_from(wv, base@, i as int),
        decreases i,
    {
        i = i - 1;
        let cur = &ws[i].package_path;
        if !str_eq(cur.as_str(), base) && path_starts_with_exec(cur.as_str(), base) {
            let mut out2: Vec<String> = Vec::new();
            out2.push(cur.clone());
            let mut rest = out;
            out2.append(&mut rest);
            out = out2;
            proof {
                assert(crate::git::strs_view(out@) =~= spec_exclude_paths_from(
                    wv,
                    base@,
                    i as int,
                ));
            }
        } else {
            proof {
                assert(crate::git::strs_view(out@) =~= spec_exclude_paths_from(
                    wv,
                    base@,
                    i as int,
                ));
            }
        }
    }
    out
}

} // verus!
