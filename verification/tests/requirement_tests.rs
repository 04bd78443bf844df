use cargo_release::requirement::Comparator;
use cargo_release::requirement::ReqOp;
use cargo_release::requirement::VersionReq;
use cargo_release::requirement::req_str;
use cargo_release::requirement::set_requirement;
use cargo_release::version::Ident;
use cargo_release::version::Version;
use cargo_release::error::FatalError;

fn v(major: u64, minor: u64, patch: u64) -> Version {
    Version { major, minor, patch, pre: vec![], build: vec![] }
}

fn caret_partial(major: u64, minor: u64) -> VersionReq {
    VersionReq {
        comparators: vec![
            Comparator { op: ReqOp::Caret, major, minor: Some(minor), patch: None, pre: vec![] },
        ],
    }
}

#[test]
fn caret_matches_within_major() {
    let req = caret_partial(1, 0);
    assert!(req.matches(&v(1, 0, 0)));
    assert!(req.matches(&v(1, 9, 0)));
    assert!(!req.matches(&v(2, 0, 0)));
    assert!(!req.matches(&v(0, 9, 0)));
}

#[test]
fn exact_and_tilde_match() {
    let eq = VersionReq {
        comparators: vec![
            Comparator {
                op: ReqOp::Exact,
                major: 1,
                minor: Some(0),
                patch: Some(0),
                pre: vec![],
            },
        ],
    };
    assert!(eq.matches(&v(1, 0, 0)));
    assert!(!eq.matches(&v(1, 0, 1)));
    let tilde = VersionReq {
        comparators: vec![
            Comparator {
                op: ReqOp::Tilde,
                major: 1,
                minor: Some(2),
                patch: Some(3),
                pre: vec![],
            },
        ],
    };
    assert!(tilde.matches(&v(1, 2, 9)));
    assert!(!tilde.matches(&v(1, 3, 0)));
}

#[test]
fn pre_release_needs_an_opted_in_comparator() {
    let req = caret_partial(1, 0);
    let pre = Version {
        major: 1,
        minor: 0,
        patch: 0,
        pre: vec![Ident::Alpha("alpha".to_string())],
        build: vec![],
    };
    assert!(!req.matches(&pre));
    let opted = VersionReq {
        comparators: vec![
            Comparator {
                op: ReqOp::Caret,
                major: 1,
                minor: Some(0),
                patch: Some(0),
                pre: vec![Ident::Alpha("alpha".to_string())],
            },
        ],
    };
    assert!(opted.matches(&pre));
}

#[test]
fn empty_requirement_is_star() {
    let star = VersionReq { comparators: vec![] };
    assert!(star.matches(&v(9, 9, 9)));
    assert_eq!(req_str(&star), "*");
}

#[test]
fn corrected_requirement_accepts_new_and_rejects_old() {
    // The reconciliation example: `^1.0` against the new version 2.0.0.
    let req = caret_partial(1, 0);
    let new_req_text = set_requirement(&req, &v(2, 0, 0)).unwrap().unwrap();
    assert_eq!(new_req_text, "^2.0");
    let rewritten = caret_partial(2, 0);
    assert_eq!(req_str(&rewritten), new_req_text);
    assert!(rewritten.matches(&v(2, 0, 0)));
    assert!(!rewritten.matches(&v(1, 9, 0)));
}

#[test]
fn matching_requirement_needs_no_write_back() {
    let req = caret_partial(1, 0);
    assert!(set_requirement(&req, &v(1, 0, 0)).unwrap().is_none());
}

#[test]
fn range_operators_cannot_be_rewritten() {
    let req = VersionReq {
        comparators: vec![
            Comparator { op: ReqOp::Greater, major: 1, minor: None, patch: None, pre: vec![] },
        ],
    };
    let e = set_requirement(&req, &v(2, 0, 0)).unwrap_err();
    assert_eq!(e, FatalError::UnsupportedVersionReq);
}

#[test]
fn wildcard_is_rewritten_in_place() {
    let req = VersionReq {
        comparators: vec![
            Comparator { op: ReqOp::Wildcard, major: 1, minor: None, patch: None, pre: vec![] },
        ],
    };
    let text = set_requirement(&req, &v(2, 5, 0)).unwrap().unwrap();
    assert_eq!(text, "2.*");
}

#[test]
fn renders_full_comparators() {
    let req = VersionReq {
        comparators: vec![
            Comparator {
                op: ReqOp::GreaterEq,
                major: 1,
                minor: Some(2),
                patch: Some(3),
                pre: vec![Ident::Alpha("rc".to_string()), Ident::Num(1)],
            },
            Comparator { op: ReqOp::Less, major: 2, minor: None, patch: None, pre: vec![] },
        ],
    };
    assert_eq!(req_str(&req), ">=1.2.3-rc.1, <2");
}
