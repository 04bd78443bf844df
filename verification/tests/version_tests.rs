use cargo_release::version::BumpLevel;
use cargo_release::version::Ident;
use cargo_release::version::TargetVersion;
use cargo_release::version::Version;
use cargo_release::version::dec_str;
use cargo_release::version::post_increment;
use cargo_release::version::version_str;
use cargo_release::error::FatalError;

fn v(major: u64, minor: u64, patch: u64) -> Version {
    Version { major, minor, patch, pre: vec![], build: vec![] }
}

fn vpre(major: u64, minor: u64, patch: u64, pre: Vec<Ident>) -> Version {
    Version { major, minor, patch, pre, build: vec![] }
}

#[test]
fn renders_plain_version() {
    assert_eq!(version_str(&v(1, 2, 3)), "1.2.3");
    assert_eq!(version_str(&v(0, 1, 0)), "0.1.0");
    assert_eq!(dec_str(907), "907");
}

#[test]
fn renders_pre_release_and_build() {
    let ver = Version {
        major: 1,
        minor: 2,
        patch: 3,
        pre: vec![Ident::Alpha("alpha".to_string()), Ident::Num(1)],
        build: vec![Ident::Alpha("build5".to_string())],
    };
    assert_eq!(version_str(&ver), "1.2.3-alpha.1+build5");
}

#[test]
fn absolute_equal_decides_no_change() {
    let t = TargetVersion::Absolute(v(1, 2, 3));
    let r = t.bump(&v(1, 2, 3), None).unwrap();
    assert!(r.is_none());
}

#[test]
fn absolute_greater_is_adopted() {
    let t = TargetVersion::Absolute(v(2, 0, 0));
    let r = t.bump(&v(1, 2, 3), None).unwrap().unwrap();
    assert_eq!(version_str(&r), "2.0.0");
}

#[test]
fn absolute_smaller_is_rejected() {
    let t = TargetVersion::Absolute(v(1, 0, 0));
    let e = t.bump(&v(1, 2, 3), None).unwrap_err();
    assert_eq!(e, FatalError::UnsupportedVersionReq);
}

#[test]
fn release_strips_pre_release() {
    let t = TargetVersion::Relative(BumpLevel::Release);
    let cur = vpre(0, 1, 0, vec![Ident::Alpha("alpha".to_string()), Ident::Num(1)]);
    let r = t.bump(&cur, None).unwrap().unwrap();
    assert_eq!(version_str(&r), "0.1.0");
}

#[test]
fn release_of_plain_version_is_no_op() {
    let t = TargetVersion::Relative(BumpLevel::Release);
    let r = t.bump(&v(0, 1, 0), None).unwrap();
    assert!(r.is_none());
}

#[test]
fn major_minor_patch_bumps() {
    let major = TargetVersion::Relative(BumpLevel::Major);
    let minor = TargetVersion::Relative(BumpLevel::Minor);
    let patch = TargetVersion::Relative(BumpLevel::Patch);
    assert_eq!(version_str(&major.bump(&v(1, 2, 3), None).unwrap().unwrap()), "2.0.0");
    assert_eq!(version_str(&minor.bump(&v(1, 2, 3), None).unwrap().unwrap()), "1.3.0");
    assert_eq!(version_str(&patch.bump(&v(1, 2, 3), None).unwrap().unwrap()), "1.2.4");
}

#[test]
fn patch_bump_of_pre_release_strips_it() {
    let t = TargetVersion::Relative(BumpLevel::Patch);
    let cur = vpre(1, 2, 3, vec![Ident::Alpha("alpha".to_string())]);
    assert_eq!(version_str(&t.bump(&cur, None).unwrap().unwrap()), "1.2.3");
}

#[test]
fn alpha_track_counts_up() {
    let t = TargetVersion::Relative(BumpLevel::Alpha);
    let first = t.bump(&v(1, 2, 3), None).unwrap().unwrap();
    assert_eq!(version_str(&first), "1.2.4-alpha.1");
    let second = t.bump(&first, None).unwrap().unwrap();
    assert_eq!(version_str(&second), "1.2.4-alpha.2");
}

#[test]
fn alpha_after_beta_is_rejected() {
    let t = TargetVersion::Relative(BumpLevel::Alpha);
    let cur = vpre(1, 2, 3, vec![Ident::Alpha("beta".to_string()), Ident::Num(1)]);
    let e = t.bump(&cur, None).unwrap_err();
    assert_eq!(e, FatalError::UnsupportedPrereleaseVersionScheme);
}

#[test]
fn rc_after_beta_counts_from_one() {
    let t = TargetVersion::Relative(BumpLevel::Rc);
    let cur = vpre(1, 2, 3, vec![Ident::Alpha("beta".to_string()), Ident::Num(4)]);
    assert_eq!(version_str(&t.bump(&cur, None).unwrap().unwrap()), "1.2.3-rc.1");
}

#[test]
fn metadata_is_stamped_on_changed_versions() {
    let t = TargetVersion::Relative(BumpLevel::Minor);
    let meta = vec![Ident::Alpha("exp".to_string()), Ident::Num(7)];
    let r = t.bump(&v(1, 2, 3), Some(&meta)).unwrap().unwrap();
    assert_eq!(version_str(&r), "1.3.0+exp.7");
}

#[test]
fn post_release_version_is_greater() {
    // Releasing 1.2.3 with the default development suffix.
    let released = v(1, 2, 3);
    let post = post_increment(&released, "alpha");
    assert_eq!(version_str(&post), "1.2.4-alpha");
    assert!(released.lt(&post));
    assert!(post.is_prerelease());
}

#[test]
fn precedence_ignores_build_but_not_pre() {
    let plain = v(1, 2, 3);
    let pre = vpre(1, 2, 3, vec![Ident::Alpha("rc".to_string())]);
    assert!(pre.lt(&plain));
    assert!(!plain.lt(&pre));
    let alpha = vpre(1, 2, 3, vec![Ident::Alpha("alpha".to_string())]);
    let beta = vpre(1, 2, 3, vec![Ident::Alpha("beta".to_string())]);
    assert!(alpha.lt(&beta));
    let num = vpre(1, 2, 3, vec![Ident::Num(1)]);
    assert!(num.lt(&alpha));
}
