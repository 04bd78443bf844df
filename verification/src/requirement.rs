//! A model of version requirements: comparators, matching, rendering, and
//! the rewrite used to point a dependent's requirement at a new version.

use vstd::prelude::*;
use crate::error::FatalError;
use crate::version::Ident;
use crate::version::IdentV;
use crate::version::Version;
use crate::version::VersionV;
use crate::version::idents_view;
use crate::version::idents_eq;
use crate::version::idents_eq_exec;
use crate::version::idents_lt_exec;
use crate::version::pre_lt;
use crate::version::pre_ge;
use crate::version::clone_idents;
use crate::version::spec_dec;
use crate::version::dec_str;
use crate::version::spec_idents_str;
use crate::version::ident_eq;

verus! {

/// The operator of one comparator of a version requirement.
#[derive(Clone, Copy, Debug, PartialEq, Eq, Structural)]
pub enum ReqOp {
    Exact,
    Greater,
    GreaterEq,
    Less,
    LessEq,
    Tilde,
    Caret,
    Wildcard,
}

/// One comparator: an operator applied to a version written with optional
/// precision (`^1`, `^1.2`, `^1.2.3-rc.1`, `1.2.*`).
#[derive(Debug)]
pub struct Comparator {
    pub op: ReqOp,
    pub major: u64,
    pub minor: Option<u64>,
    pub patch: Option<u64>,
    pub pre: Vec<Ident>,
}

/// The mathematical value of a [`Comparator`].
#[verifier::ext_equal]
pub ghost struct ComparatorV {
    pub op: ReqOp,
    pub major: u64,
    pub minor: Option<u64>,
    pub patch: Option<u64>,
    pub pre: Seq<IdentV>,
}

impl View for Comparator {
    type V = ComparatorV;

    open spec fn view(&self) -> ComparatorV {
        ComparatorV {
            op: self.op,
            major: self.major,
            minor: self.minor,
            patch: self.patch,
            pre: idents_view(self.pre@),
        }
    }
}

/// A version requirement: every comparator must accept the version.  An
/// empty list is the bare `*` requirement.
#[derive(Debug)]
pub struct VersionReq {
    pub comparators: Vec<Comparator>,
}

/// The mathematical value of a [`VersionReq`].
#[verifier::ext_equal]
pub ghost struct VersionReqV {
    pub comparators: Seq<ComparatorV>,
}

impl View for VersionReq {
    type V = VersionReqV;

    open spec fn view(&self) -> VersionReqV {
        VersionReqV { comparators: self.comparators@.map_values(|c: Comparator| c@) }
    }
}

/// Exact match at the comparator's precision: stated components must be
/// equal, and the pre-release lists must be equal.
pub open spec fn matches_exact(c: ComparatorV, v: VersionV) -> bool {
    &&& v.major == c.major
    &&& match c.minor {
        Option::Some(m) => v.minor == m,
        Option::None => true,
    }
    &&& match c.patch {
        Option::Some(p) => v.patch == p,
        Option::None => true,
    }
    &&& idents_eq(v.pre, c.pre)
}

/// Strictly-greater match at the comparator's precision.
pub open spec fn matches_greater(c: ComparatorV, v: VersionV) -> bool {
    if v.major != c.major {
        v.major > c.major
    } else {
        match c.minor {
            Option::None => false,
            Option::Some(m) => {
                if v.minor != m {
                    v.minor > m
                } else {
                    match c.patch {
                        Option::None => false,
                        Option::Some(p) => {
                            if v.patch != p {
                                v.patch > p
                            } else {
                                pre_lt(c.pre, v.pre)
                            }
                        },
                    }
                }
            },
        }
    }
}

/// Strictly-less match at the comparator's precision.
pub open spec fn matches_less(c: ComparatorV, v: VersionV) -> bool {
    if v.major != c.major {
        v.major < c.major
    } else {
        match c.minor {
            Option::None => false,
            Option::Some(m) => {
                if v.minor != m {
                    v.minor < m
                } else {
                    match c.patch {
                        Option::None => false,
                        Option::Some(p) => {
                            if v.patch != p {
                                v.patch < p
                            } else {
                                pre_lt(v.pre, c.pre)
                            }
                        },
                    }
                }
            },
        }
    }
}

/// Tilde match: stated components equal, a greater patch is accepted.
pub open spec fn matches_tilde(c: ComparatorV, v: VersionV) -> bool {
    if v.major != c.major {
        false
    } else if (match c.minor {
        Option::Some(m) => v.minor != m,
        Option::None => false,
    }) {
        false
    } else if (match c.patch {
        Option::Some(p) => v.patch != p,
        Option::None => false,
    }) {
        match c.patch {
            Option::Some(p) => v.patch > p,
            Option::None => false,
        }
    } else {
        pre_ge(v.pre, c.pre)
    }
}

/// Caret match: compatible within the leftmost non-zero component.
pub open spec fn matches_caret(c: ComparatorV, v: VersionV) -> bool {
    if v.major != c.major {
        false
    } else {
        match c.minor {
            Option::None => true,
            Option::Some(m) => match c.patch {
                Option::None => {
                    if c.major > 0 {
                        v.minor >= m
                    } else {
                        v.minor == m
                    }
                },
                Option::Some(p) => {
                    if c.major > 0 {
                        if v.minor != m {
                            v.minor > m
                        } else if v.patch != p {
                            v.patch > p
                        } else {
                            pre_ge(v.pre, c.pre)
                        }
                    } else if m > 0 {
                        if v.minor != m {
                            false
                        } else if v.patch != p {
                            v.patch > p
                        } else {
                            pre_ge(v.pre, c.pre)
                        }
                    } else {
                        if v.minor != m || v.patch != p {
                            false
                        } else {
                            pre_ge(v.pre, c.pre)
                        }
                    }
                },
            },
        }
    }
}

/// Whether one comparator accepts a version.
pub open spec fn matches_impl(c: ComparatorV, v: VersionV) -> bool {
    match c.op {
        ReqOp::Exact => matches_exact(c, v),
        ReqOp::Wildcard => matches_exact(c, v),
        ReqOp::Greater => matches_greater(c, v),
        ReqOp::GreaterEq => matches_exact(c, v) || matches_greater(c, v),
        ReqOp::Less => matches_less(c, v),
        ReqOp::LessEq => matches_exact(c, v) || matches_less(c, v),
        ReqOp::Tilde => matches_tilde(c, v),
        ReqOp::Caret => matches_caret(c, v),
    }
}

/// A pre-release version is accepted only by a comparator that names the
/// same numeric triple and itself carries a pre-release list.
pub open spec fn pre_compatible(c: ComparatorV, v: VersionV) -> bool {
    &&& c.major == v.major
    &&& c.minor == Option::Some(v.minor)
    &&& c.patch == Option::Some(v.patch)
    &&& c.pre.len() > 0
}

/// Whether a requirement accepts a version.
pub open spec fn spec_req_matches(r: VersionReqV, v: VersionV) -> bool {
    &&& forall|i: int| 0 <= i < r.comparators.len() ==> matches_impl(#[trigger] r.comparators[i], v)
    &&& v.pre.len() > 0 ==> exists|i: int|
        0 <= i < r.comparators.len() && pre_compatible(#[trigger] r.comparators[i], v)
}

fn pre_lt_exec(a: &Vec<Ident>, b: &Vec<Ident>) -> (r: bool)
    ensures
        r == pre_lt(idents_view(a@), idents_view(b@)),
{
    if a.len() == 0 {
        false
    } else if b.len() == 0 {
        true
    } else {
        idents_lt_exec(a, b)
    }
}

fn matches_exact_exec(c: &Comparator, v: &Version) -> (r: bool)
    ensures
        r == matches_exact(c@, v@),
{
    if v.major != c.major {
        return false;
    }
    if let Option::Some(m) = c.minor {
        if v.minor != m {
            return false;
        }
    }
    if let Option::Some(p) = c.patch {
        if v.patch != p {
            return false;
        }
    }
    idents_eq_exec(&v.pre, &c.pre)
}

fn matches_greater_exec(c: &Comparator, v: &Version) -> (r: bool)
    ensures
        r == matches_greater(c@, v@),
{
    if v.major != c.major {
        return v.major > c.major;
    }
    match c.minor {
        Option::None => false,
        Option::Some(m) => {
            if v.minor != m {
                return v.minor > m;
            }
            match c.patch {
                Option::None => false,
                Option::Some(p) => {
                    if v.patch != p {
                        return v.patch > p;
                    }
                    pre_lt_exec(&c.pre, &v.pre)
                },
            }
        },
    }
}

fn matches_less_exec(c: &Comparator, v: &Version) -> (r: bool)
    ensures
        r == matches_less(c@, v@),
{
    if v.major != c.major {
        return v.major < c.major;
    }
    match c.minor {
        Option::None => false,
        Option::Some(m) => {
            if v.minor != m {
                return v.minor < m;
            }
            match c.patch {
                Option::None => false,
                Option::Some(p) => {
                    if v.patch != p {
                        return v.patch < p;
                    }
                    pre_lt_exec(&v.pre, &c.pre)
                },
            }
        },
    }
}

fn matches_tilde_exec(c: &Comparator, v: &Version) -> (r: bool)
    ensures
        r == matches_tilde(c@, v@),
{
    if v.major != c.major {
        return false;
    }
    if let Option::Some(m) = c.minor {
        if v.minor != m {
            return false;
        }
    }
    if let Option::Some(p) = c.patch {
        if v.patch != p {
            return v.patch > p;
        }
    }
    !pre_lt_exec(&v.pre, &c.pre)
}

fn matches_caret_exec(c: &Comparator, v: &Version) -> (r: bool)
    ensures
        r == matches_caret(c@, v@),
{
    if v.major != c.major {
        return false;
    }
    let m = match c.minor {
        Option::None => {
            return true;
        },
        Option::Some(m) => m,
    };
    let p = match c.patch {
        Option::None => {
            if c.major > 0 {
                return v.minor >= m;
            } else {
                return v.minor == m;
            }
        },
        Option::Some(p) => p,
    };
    if c.major > 0 {
        if v.minor != m {
            return v.minor > m;
        }
        if v.patch != p {
            return v.patch > p;
        }
    } else if m > 0 {
        if v.minor != m {
            return false;
        }
        if v.patch != p {
            return v.patch > p;
        }
    } else {
        if v.minor != m || v.patch != p {
            return false;
        }
    }
    !pre_lt_exec(&v.pre, &c.pre)
}

fn matches_impl_exec(c: &Comparator, v: &Version) -> (r: bool)
    ensures
        r == matches_impl(c@, v@),
{
    match c.op {
        ReqOp::Exact => matches_exact_exec(c, v),
        ReqOp::Wildcard => matches_exact_exec(c, v),
        ReqOp::Greater => matches_greater_exec(c, v),
        ReqOp::GreaterEq => matches_exact_exec(c, v) || matches_greater_exec(c, v),
        ReqOp::Less => matches_less_exec(c, v),
        ReqOp::LessEq => matches_exact_exec(c, v) || matches_less_exec(c, v),
        ReqOp::Tilde => matches_tilde_exec(c, v),
        ReqOp::Caret => matches_caret_exec(c, v),
    }
}

impl VersionReq {
    /// Whether this requirement accepts the given version.
    pub fn matches(&self, v: &Version) -> (r: bool)
        ensures
            r == spec_req_matches(self@, v@),
    {
        let ghost rv = self@;
        proof {
            assert(rv.comparators.len() == self.comparators@.len());
            assert(forall|j: int|
                0 <= j < self.comparators@.len() ==> rv.comparators[j] == self.comparators@[j]@);
        }
        let mut i: usize = 0;
        while i < self.comparators.len()
            invariant
                i <= self.comparators@.len(),
                rv == self@,
                rv.comparators.len() == self.comparators@.len(),
                forall|j: int|
                    0 <= j < self.comparators@.len() ==> rv.comparators[j]
                        == self.comparators@[j]@,
                forall|j: int| 0 <= j < i ==> matches_impl(#[trigger] rv.comparators[j], v@),
            decreases self.comparators@.len() - i,
        {
            if !matches_impl_exec(&self.comparators[i], v) {
                proof {
                    assert(!matches_impl(rv.comparators[i as int], v@));
                }
                return false;
            }
            i += 1;
        }
        if v.pre.len() == 0 {
            return true;
        }
        let mut k: usize = 0;
        while k < self.comparators.len()
            invariant
                k <= self.comparators@.len(),
                rv == self@,
                rv.comparators.len() == self.comparators@.len(),
                forall|j: int|
                    0 <= j < self.comparators@.len() ==> rv.comparators[j]
                        == self.comparators@[j]@,
                forall|j: int| 0 <= j < rv.comparators.len() ==> matches_impl(
                    #[trigger] rv.comparators[j],
                    v@,
                ),
                v@.pre.len() > 0,
                forall|j: int| 0 <= j < k ==> !pre_compatible(#[trigger] rv.comparators[j], v@),
            decreases self.comparators@.len() - k,
        {
            let c = &self.comparators[k];
            let compatible: bool = c.major == v.major && (match c.minor {
                Option::Some(m) => m == v.minor,
                Option::None => false,
            }) && (match c.patch {
                Option::Some(p) => p == v.patch,
                Option::None => false,
            }) && c.pre.len() > 0;
            if compatible {
                proof {
                    assert(pre_compatible(rv.comparators[k as int], v@));
                }
                return true;
            }
            k += 1;
        }
        false
    }
}

impl Clone for Comparator {
    fn clone(&self) -> (r: Self)
        ensures
            r@ == self@,
    {
        let r = Comparator {
            op: self.op,
            major: self.major,
            minor: self.minor,
            patch: self.patch,
            pre: clone_idents(&self.pre),
        };
        proof {
            assert(r@ =~= self@);
        }
        r
    }
}

impl VersionReq {
    /// Clones the requirement, preserving its value.
    pub fn clone_req(&self) -> (r: VersionReq)
        ensures
            r@ == self@,
    {
        let mut comparators: Vec<Comparator> = Vec::new();
        let mut k: usize = 0;
        while k < self.comparators.len()
            invariant
                k <= self.comparators@.len(),
                comparators@.len() == k,
                forall|i: int| 0 <= i < k ==> comparators@[i]@ == self.comparators@[i]@,
            decreases self.comparators@.len() - k,
        {
            comparators.push(self.comparators[k].clone());
            k += 1;
        }
        let r = VersionReq { comparators };
        proof {
            assert(r@ =~= self@);
        }
        r
    }
}

/// Operators that can be rewritten to point at a new version while keeping
/// their meaning; `>`, `<` and `<=` cannot.
pub open spec fn op_rewritable(op: ReqOp) -> bool {
    match op {
        ReqOp::Greater => false,
        ReqOp::Less => false,
        ReqOp::LessEq => false,
        _ => true,
    }
}

/// A requirement every comparator of which can be rewritten.
pub open spec fn req_rewritable(r: VersionReqV) -> bool {
    forall|i: int| 0 <= i < r.comparators.len() ==> op_rewritable(#[trigger] r.comparators[i].op)
}

/// A well-formed requirement: a wildcard comparator carries no pre-release
/// list (the grammar cannot express one).
pub open spec fn wf_req(r: VersionReqV) -> bool {
    forall|i: int|
        0 <= i < r.comparators.len() ==> ((#[trigger] r.comparators[i].op) == ReqOp::Wildcard
            ==> r.comparators[i].pre.len() == 0)
}

/// One comparator rewritten to point at `v`, preserving its operator and its
/// written precision.
pub open spec fn spec_rewrite_comparator(c: ComparatorV, v: VersionV) -> ComparatorV {
    ComparatorV {
        op: c.op,
        major: v.major,
        minor: match c.minor {
            Option::Some(_) => Option::Some(v.minor),
            Option::None => Option::None,
        },
        patch: match c.patch {
            Option::Some(_) => Option::Some(v.patch),
            Option::None => Option::None,
        },
        pre: if c.op == ReqOp::Wildcard {
            c.pre
        } else {
            v.pre
        },
    }
}

/// The whole requirement rewritten to point at `v`.
pub open spec fn spec_rewrite_req(r: VersionReqV, v: VersionV) -> VersionReqV {
    VersionReqV { comparators: r.comparators.map_values(|c: ComparatorV| spec_rewrite_comparator(c, v)) }
}

/// Equality of comparators, by value.
pub open spec fn comparator_eq(a: ComparatorV, b: ComparatorV) -> bool {
    &&& a.op == b.op
    &&& a.major == b.major
    &&& a.minor == b.minor
    &&& a.patch == b.patch
    &&& idents_eq(a.pre, b.pre)
}

/// Equality of requirements, comparator by comparator.
pub open spec fn req_eq(a: VersionReqV, b: VersionReqV) -> bool {
    a.comparators.len() == b.comparators.len() && forall|i: int|
        0 <= i < a.comparators.len() ==> comparator_eq(
            #[trigger] a.comparators[i],
            b.comparators[i],
        )
}

/// Identifier-list equality is equality of values.
pub proof fn lemma_idents_eq_is_eq(a: Seq<IdentV>, b: Seq<IdentV>)
    requires
        idents_eq(a, b),
    ensures
        a == b,
{
    assert forall|i: int| 0 <= i < a.len() implies a[i] == b[i] by {
        assert(ident_eq(a[i], b[i]));
        match (a[i], b[i]) {
            (IdentV::Num(x), IdentV::Num(y)) => {},
            (IdentV::Alpha(x), IdentV::Alpha(y)) => {},
            _ => {},
        }
    }
    assert(a =~= b);
}

/// Requirement equality is equality of values.
pub proof fn lemma_req_eq_is_eq(a: VersionReqV, b: VersionReqV)
    requires
        req_eq(a, b),
    ensures
        a == b,
{
    assert forall|i: int| 0 <= i < a.comparators.len() implies a.comparators[i]
        == b.comparators[i] by {
        lemma_idents_eq_is_eq(a.comparators[i].pre, b.comparators[i].pre);
        assert(a.comparators[i] =~= b.comparators[i]);
    }
    assert(a =~= b);
}

/// The operator prefix in a requirement's text.
pub open spec fn spec_op_prefix(op: ReqOp) -> Seq<char> {
    match op {
        ReqOp::Exact => "="@,
        ReqOp::Greater => ">"@,
        ReqOp::GreaterEq => ">="@,
        ReqOp::Less => "<"@,
        ReqOp::LessEq => "<="@,
        ReqOp::Tilde => "~"@,
        ReqOp::Caret => "^"@,
        ReqOp::Wildcard => Seq::empty(),
    }
}

/// The text of one comparator.
pub open spec fn spec_comparator_str(c: ComparatorV) -> Seq<char> {
    if c.op == ReqOp::Wildcard {
        match c.minor {
            Option::None => spec_dec(c.major as int) + ".*"@,
            Option::Some(m) => spec_dec(c.major as int) + seq!['.'] + spec_dec(m as int) + ".*"@,
        }
    } else {
        spec_op_prefix(c.op) + spec_dec(c.major as int) + (match c.minor {
            Option::None => Seq::<char>::empty(),
            Option::Some(m) => seq!['.'] + spec_dec(m as int) + (match c.patch {
                Option::None => Seq::<char>::empty(),
                Option::Some(p) => seq!['.'] + spec_dec(p as int) + (if c.pre.len() > 0 {
                    seq!['-'] + spec_idents_str(c.pre)
                } else {
                    Seq::<char>::empty()
                }),
            }),
        })
    }
}

/// The text of a requirement from comparator `i` on, comma-joined.
pub open spec fn spec_req_str_from(l: Seq<ComparatorV>, i: int) -> Seq<char>
    decreases l.len() - i,
{
    if i < 0 || i >= l.len() {
        Seq::empty()
    } else if i == l.len() - 1 {
        spec_comparator_str(l[i])
    } else {
        spec_comparator_str(l[i]) + ", "@ + spec_req_str_from(l, i + 1)
    }
}

/// The text of a requirement; the empty requirement is `*`.
pub open spec fn spec_req_str(r: VersionReqV) -> Seq<char> {
    if r.comparators.len() == 0 {
        "*"@
    } else {
        spec_req_str_from(r.comparators, 0)
    }
}

fn op_prefix(op: ReqOp) -> (r: &'static str)
    ensures
        r@ == spec_op_prefix(op),
{
    proof {
        reveal_strlit("=");
        reveal_strlit(">");
        reveal_strlit(">=");
        reveal_strlit("<");
        reveal_strlit("<=");
        reveal_strlit("~");
        reveal_strlit("^");
        reveal_strlit("");
    }
    let r = match op {
        ReqOp::Exact => "=",
        ReqOp::Greater => ">",
        ReqOp::GreaterEq => ">=",
        ReqOp::Less => "<",
        ReqOp::LessEq => "<=",
        ReqOp::Tilde => "~",
        ReqOp::Caret => "^",
        ReqOp::Wildcard => "",
    };
    proof {
        assert(r@ =~= spec_op_prefix(op));
    }
    r
}

fn comparator_str(c: &Comparator) -> (r: String)
    ensures
        r@ == spec_comparator_str(c@),
{
    proof {
        reveal_strlit(".");
        reveal_strlit(".*");
        reveal_strlit("-");
    }
    if let ReqOp::Wildcard = c.op {
        let mut s = dec_str(c.major);
        if let Option::Some(m) = c.minor {
            s.append(".");
            let ms = dec_str(m);
            s.append(ms.as_str());
        }
        s.append(".*");
        proof {
            assert(s@ =~= spec_comparator_str(c@));
        }
        return s;
    }
    let mut s = String::from_str(op_prefix(c.op));
    let major_s = dec_str(c.major);
    s.append(major_s.as_str());
    if let Option::Some(m) = c.minor {
        s.append(".");
        let ms = dec_str(m);
        s.append(ms.as_str());
        if let Option::Some(p) = c.patch {
            s.append(".");
            let ps = dec_str(p);
            s.append(ps.as_str());
            if c.pre.len() > 0 {
                s.append("-");
                let pres = crate::version::idents_str(&c.pre);
                s.append(pres.as_str());
            }
        }
    }
    proof {
        assert(s@ =~= spec_comparator_str(c@));
    }
    s
}

fn req_str_from(l: &Vec<Comparator>, i: usize) -> (r: String)
    ensures
        r@ == spec_req_str_from(l@.map_values(|c: Comparator| c@), i as int),
    decreases l@.len() - i,
{
    let ghost lv = l@.map_values(|c: Comparator| c@);
    proof {
        assert(lv.len() == l@.len());
        assert(forall|j: int| 0 <= j < l@.len() ==> lv[j] == l@[j]@);
    }
    if i >= l.len() {
        let r = String::new();
        proof {
            assert(r@ =~= spec_req_str_from(lv, i as int));
        }
        r
    } else if i == l.len() - 1 {
        comparator_str(&l[i])
    } else {
        let mut s = comparator_str(&l[i]);
        s.append(", ");
        let rest = req_str_from(l, i + 1);
        s.append(rest.as_str());
        proof {
            reveal_strlit(", ");
            assert(s@ =~= spec_req_str_from(lv, i as int));
        }
        s
    }
}

/// Renders a requirement as text.
pub fn req_str(r: &VersionReq) -> (s: String)
    ensures
        s@ == spec_req_str(r@),
{
    if r.comparators.len() == 0 {
        let s = String::from_str("*");
        proof {
            assert(s@ == spec_req_str(r@));
        }
        s
    } else {
        req_str_from(&r.comparators, 0)
    }
}

/// What rewriting a requirement decides: an unsupported operator is
/// rejected; a rewrite that changes nothing asks for no write-back; any
/// other rewrite yields the new requirement text.
pub open spec fn spec_set_requirement(r: VersionReqV, v: VersionV) -> Result<
    Option<Seq<char>>,
    FatalError,
> {
    if !req_rewritable(r) {
        Result::Err(FatalError::UnsupportedVersionReq)
    } else if req_eq(spec_rewrite_req(r, v), r) {
        Result::Ok(Option::None)
    } else {
        Result::Ok(Option::Some(spec_req_str(spec_rewrite_req(r, v))))
    }
}

/// Relates an executable rewrite result to its specified value.
pub open spec fn set_req_matches(
    r: Result<Option<String>, FatalError>,
    s: Result<Option<Seq<char>>, FatalError>,
) -> bool {
    match (r, s) {
        (Result::Ok(Option::None), Result::Ok(Option::None)) => true,
        (Result::Ok(Option::Some(x)), Result::Ok(Option::Some(y))) => x@ == y,
        (Result::Err(e1), Result::Err(e2)) => e1 == e2,
        _ => false,
    }
}

fn comparator_eq_exec(a: &Comparator, b: &Comparator) -> (r: bool)
    ensures
        r == comparator_eq(a@, b@),
{
    let minor_eq: bool = match (a.minor, b.minor) {
        (Option::Some(x), Option::Some(y)) => x == y,
        (Option::None, Option::None) => true,
        _ => false,
    };
    let patch_eq: bool = match (a.patch, b.patch) {
        (Option::Some(x), Option::Some(y)) => x == y,
        (Option::None, Option::None) => true,
        _ => false,
    };
    a.op == b.op && a.major == b.major && minor_eq && patch_eq && idents_eq_exec(&a.pre, &b.pre)
}

/// Rewrites a requirement so that it accepts `v`, preserving each
/// comparator's operator and written precision; per [`spec_set_requirement`].
pub fn set_requirement(req: &VersionReq, v: &Version) -> (r: Result<Option<String>, FatalError>)
    ensures
        set_req_matches(r, spec_set_requirement(req@, v@)),
{
    let ghost rv = req@;
    proof {
        assert(rv.comparators.len() == req.comparators@.len());
        assert(forall|j: int|
            0 <= j < req.comparators@.len() ==> rv.comparators[j] == req.comparators@[j]@);
    }
    let mut rewritten: Vec<Comparator> = Vec::new();
    let mut unchanged: bool = true;
    let mut i: usize = 0;
    while i < req.comparators.len()
        invariant
            i <= req.comparators@.len(),
            rv == req@,
            rv.comparators.len() == req.comparators@.len(),
            forall|j: int|
                0 <= j < req.comparators@.len() ==> rv.comparators[j] == req.comparators@[j]@,
            forall|j: int| 0 <= j < i ==> op_rewritable(#[trigger] rv.comparators[j].op),
            rewritten@.len() == i,
            forall|j: int| 0 <= j < i ==> #[trigger] rewritten@[j]@ == spec_rewrite_comparator(
                rv.comparators[j],
                v@,
            ),
            unchanged == (forall|j: int|
                0 <= j < i ==> comparator_eq(
                    spec_rewrite_comparator(#[trigger] rv.comparators[j], v@),
                    rv.comparators[j],
                )),
        decreases req.comparators@.len() - i,
    {
        let c = &req.comparators[i];
        match c.op {
            ReqOp::Greater => {
                return Result::Err(FatalError::UnsupportedVersionReq);
            },
            ReqOp::Less => {
                return Result::Err(FatalError::UnsupportedVersionReq);
            },
            ReqOp::LessEq => {
                return Result::Err(FatalError::UnsupportedVersionReq);
            },
            _ => {},
        }
        let new_c = Comparator {
            op: c.op,
            major: v.major,
            minor: match c.minor {
                Option::Some(_) => Option::Some(v.minor),
                Option::None => Option::None,
            },
            patch: match c.patch {
                Option::Some(_) => Option::Some(v.patch),
                Option::None => Option::None,
            },
            pre: if let ReqOp::Wildcard = c.op {
                clone_idents(&c.pre)
            } else {
                clone_idents(&v.pre)
            },
        };
        proof {
            assert(idents_view(new_c.pre@) =~= if c@.op == ReqOp::Wildcard {
                c@.pre
            } else {
                v@.pre
            });
            assert(new_c@ =~= spec_rewrite_comparator(rv.comparators[i as int], v@));
        }
        let same = comparator_eq_exec(&new_c, c);
        unchanged = unchanged && same;
        rewritten.push(new_c);
        i += 1;
    }
    proof {
        let rw = spec_rewrite_req(rv, v@);
        assert(rw.comparators.len() == rv.comparators.len());
        assert(forall|j: int|
            0 <= j < rv.comparators.len() ==> #[trigger] rw.comparators[j]
                == spec_rewrite_comparator(rv.comparators[j], v@));
        assert(req_rewritable(rv));
        if unchanged {
            assert forall|j: int| 0 <= j < rv.comparators.len() implies comparator_eq(
                #[trigger] rw.comparators[j],
                rv.comparators[j],
            ) by {
                assert(comparator_eq(
                    spec_rewrite_comparator(rv.comparators[j], v@),
                    rv.comparators[j],
                ));
            }
            assert(req_eq(rw, rv));
        } else {
            assert(exists|j: int|
                0 <= j < rv.comparators.len() && !comparator_eq(
                    spec_rewrite_comparator(#[trigger] rv.comparators[j], v@),
                    rv.comparators[j],
                ));
            let j = choose|j: int|
                0 <= j < rv.comparators.len() && !comparator_eq(
                    spec_rewrite_comparator(#[trigger] rv.comparators[j], v@),
                    rv.comparators[j],
                );
            assert(!comparator_eq(rw.comparators[j], rv.comparators[j]));
            assert(!req_eq(rw, rv));
        }
        assert(unchanged == req_eq(rw, rv));
    }
    if unchanged {
        Result::Ok(Option::None)
    } else {
        let new_req = VersionReq { comparators: rewritten };
        proof {
            assert(new_req@ =~= spec_rewrite_req(rv, v@));
        }
        let text = req_str(&new_req);
        Result::Ok(Option::Some(text))
    }
}

/// A rewritten requirement accepts the version it was pointed at.  Stated
/// for release (non-pre-release) versions; a rewrite is not guaranteed to
/// accept a pre-release version when a wildcard comparator is present.
pub proof fn lemma_rewrite_matches(r: VersionReqV, v: VersionV)
    requires
        wf_req(r),
        req_rewritable(r),
        v.pre.len() == 0,
    ensures
        spec_req_matches(spec_rewrite_req(r, v), v),
{
    let rr = spec_rewrite_req(r, v);
    assert forall|i: int| 0 <= i < rr.comparators.len() implies matches_impl(
        #[trigger] rr.comparators[i],
        v,
    ) by {
        let c = r.comparators[i];
        let c2 = rr.comparators[i];
        assert(c2 == spec_rewrite_comparator(c, v));
        assert(op_rewritable(c.op));
        assert(c.op == ReqOp::Wildcard ==> c.pre.len() == 0);
        assert(c2.pre.len() == 0);
        assert(idents_eq(v.pre, c2.pre));
        assert(!pre_lt(v.pre, c2.pre));
        match c.op {
            ReqOp::Exact => {
                assert(matches_exact(c2, v));
            },
            ReqOp::Wildcard => {
                assert(matches_exact(c2, v));
            },
            ReqOp::GreaterEq => {
                assert(matches_exact(c2, v));
            },
            ReqOp::Tilde => {
                assert(matches_tilde(c2, v));
            },
            ReqOp::Caret => {
                assert(matches_caret(c2, v));
            },
            _ => {},
        }
    }
}

/// The reconciliation law for `Fix` and `Upgrade`: when rewriting succeeds,
/// the requirement in force afterwards — the corrected one if a write-back
/// was produced, the original one if nothing needed to change — accepts the
/// new version.
pub proof fn lemma_set_requirement_effective(r: VersionReqV, v: VersionV)
    requires
        wf_req(r),
        v.pre.len() == 0,
        spec_set_requirement(r, v) is Ok,
    ensures
        spec_set_requirement(r, v) matches Result::Ok(o) ==> (o is Some ==> spec_req_matches(
            spec_rewrite_req(r, v),
            v,
        )) && (o is None ==> spec_req_matches(r, v)),
{
    assert(req_rewritable(r));
    lemma_rewrite_matches(r, v);
    if req_eq(spec_rewrite_req(r, v), r) {
        lemma_req_eq_is_eq(spec_rewrite_req(r, v), r);
    }
}

} // verus!
