use cargo_release::config::Config;
use cargo_release::plan::ChangedFile;
use cargo_release::plan::DepDecl;
use cargo_release::plan::Member;
use cargo_release::plan::PackageRelease;
use cargo_release::plan::ReleaseRequest;
use cargo_release::plan::filter_changed;
use cargo_release::plan::find_dependents;
use cargo_release::plan::exclude_paths;
use cargo_release::requirement::Comparator;
use cargo_release::requirement::ReqOp;
use cargo_release::requirement::VersionReq;
use cargo_release::version::BumpLevel;
use cargo_release::version::TargetVersion;
use cargo_release::version::Version;
use cargo_release::version::version_str;

fn plan_member(name: &str, path: &str, major: u64, minor: u64, patch: u64) -> Member {
    Member {
        name: name.to_string(),
        manifest_path: format!("{}/Cargo.toml", path),
        package_path: path.to_string(),
        version: Version { major, minor, patch, pre: vec![], build: vec![] },
        dependencies: vec![],
        publish: true,
    }
}

fn exact_req(major: u64, minor: u64, patch: u64) -> VersionReq {
    VersionReq {
        comparators: vec![Comparator {
            op: ReqOp::Exact,
            major,
            minor: Some(minor),
            patch: Some(patch),
            pre: vec![],
        }],
    }
}

fn plan_request(level: BumpLevel) -> ReleaseRequest {
    ReleaseRequest {
        level_or_version: TargetVersion::Relative(level),
        metadata: None,
        prev_tag_name: None,
        dry_run: true,
        no_confirm: false,
    }
}

#[test]
fn load_builds_a_full_plan() {
    let ws = vec![plan_member("demo", "/ws", 0, 1, 0)];
    let plan = PackageRelease::load(
        &plan_request(BumpLevel::Minor),
        "/ws",
        &ws,
        0,
        None,
        None,
        &Config::new(),
    )
    .unwrap()
    .unwrap();
    assert_eq!(plan.prev_version_string, "0.1.0");
    // The root package gets no tag prefix.
    assert_eq!(plan.prev_tag, "v0.1.0");
    assert_eq!(plan.version_string.as_deref(), Some("0.2.0"));
    assert_eq!(plan.tag.as_deref(), Some("v0.2.0"));
    assert_eq!(plan.post_version_string.as_deref(), Some("0.2.1-alpha"));
    assert!(plan.dependents.is_empty());
}

#[test]
fn load_prefixes_sub_package_tags() {
    let ws = vec![
        plan_member("root", "/ws", 1, 0, 0),
        plan_member("sub", "/ws/sub", 0, 3, 0),
    ];
    let plan = PackageRelease::load(
        &plan_request(BumpLevel::Patch),
        "/ws",
        &ws,
        1,
        None,
        None,
        &Config::new(),
    )
    .unwrap()
    .unwrap();
    assert_eq!(plan.prev_tag, "sub-v0.3.0");
    assert_eq!(plan.tag.as_deref(), Some("sub-v0.3.1"));
}

#[test]
fn load_skips_disabled_packages() {
    let ws = vec![plan_member("demo", "/ws", 0, 1, 0)];
    let mut cfg = Config::new();
    cfg.disable_release = Some(true);
    let r = PackageRelease::load(
        &plan_request(BumpLevel::Minor),
        "/ws",
        &ws,
        0,
        None,
        None,
        &cfg,
    )
    .unwrap();
    assert!(r.is_none());
}

#[test]
fn load_honors_manifest_publish_flag() {
    let mut m = plan_member("demo", "/ws", 0, 1, 0);
    m.publish = false;
    let ws = vec![m];
    let plan = PackageRelease::load(
        &plan_request(BumpLevel::Minor),
        "/ws",
        &ws,
        0,
        None,
        None,
        &Config::new(),
    )
    .unwrap()
    .unwrap();
    assert!(plan.config.disable_publish());
}

#[test]
fn load_trusts_prev_tag_override() {
    let ws = vec![plan_member("demo", "/ws", 0, 1, 0)];
    let mut req = plan_request(BumpLevel::Minor);
    req.prev_tag_name = Some("legacy-tag".to_string());
    let plan = PackageRelease::load(&req, "/ws", &ws, 0, None, None, &Config::new())
        .unwrap()
        .unwrap();
    assert_eq!(plan.prev_tag, "legacy-tag");
}

#[test]
fn load_of_pre_release_has_no_post_version() {
    let mut m = plan_member("demo", "/ws", 0, 1, 0);
    m.version.pre = vec![cargo_release::version::Ident::Alpha("rc".to_string())];
    let ws = vec![m];
    // Moving to the next release-candidate keeps the version a pre-release.
    let plan = PackageRelease::load(
        &plan_request(BumpLevel::Rc),
        "/ws",
        &ws,
        0,
        None,
        None,
        &Config::new(),
    )
    .unwrap()
    .unwrap();
    assert_eq!(version_str(plan.version.as_ref().unwrap()), "0.1.0-rc.1");
    assert!(plan.post_version.is_none());
}

#[test]
fn dependents_are_found_by_name() {
    let mut a = plan_member("a", "/ws/a", 1, 0, 0);
    let mut b = plan_member("b", "/ws/b", 0, 5, 0);
    b.dependencies = vec![DepDecl { name: "a".to_string(), req: exact_req(1, 0, 0) }];
    a.dependencies = vec![];
    let ws = vec![a, b];
    let deps = find_dependents(&ws, 0);
    assert_eq!(deps.len(), 1);
    assert_eq!(deps[0].pkg, 1);
    let none = find_dependents(&ws, 1);
    assert!(none.is_empty());
}

#[test]
fn nested_member_paths_are_excluded() {
    let ws = vec![
        plan_member("root", "/ws", 1, 0, 0),
        plan_member("sub", "/ws/sub", 1, 0, 0),
        plan_member("subsub", "/ws/sub/inner", 1, 0, 0),
        plan_member("other", "/wsx", 1, 0, 0),
    ];
    let ex = exclude_paths(&ws, "/ws");
    assert_eq!(ex, vec!["/ws/sub".to_string(), "/ws/sub/inner".to_string()]);
    // A mere string prefix is not a path prefix.
    let none = exclude_paths(&ws, "/w");
    assert!(none.is_empty());
}

#[test]
fn changed_files_apply_excludes_and_the_lock_exception() {
    let changed = vec![
        ChangedFile { path: "/ws/src/lib.rs".to_string(), ignored: false },
        ChangedFile { path: "/ws/sub/src/lib.rs".to_string(), ignored: false },
        ChangedFile { path: "/ws/notes.txt".to_string(), ignored: true },
        ChangedFile { path: "/ws/Cargo.lock".to_string(), ignored: false },
    ];
    let excludes = vec!["/ws/sub".to_string()];
    let r = filter_changed(&changed, &excludes, "/ws/Cargo.lock");
    assert!(r.lock_excluded);
    assert_eq!(r.files, vec!["/ws/src/lib.rs".to_string()]);
}

#[test]
fn lock_file_alone_counts_as_no_changes() {
    let changed = vec![ChangedFile { path: "/ws/Cargo.lock".to_string(), ignored: false }];
    let r = filter_changed(&changed, &vec![], "/ws/Cargo.lock");
    assert!(r.lock_excluded);
    assert!(r.files.is_empty());
}
