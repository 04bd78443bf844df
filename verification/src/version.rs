//! A model of semantic versions: precedence, equality, rendering, and the
//! bump rules used to decide the next version of a package.

use vstd::prelude::*;
use crate::error::FatalError;

verus! {

/// One dot-separated identifier of a pre-release or build-metadata list.
#[derive(Debug)]
pub enum Ident {
    Num(u64),
    Alpha(String),
}

/// The mathematical value of an [`Ident`].
#[verifier::ext_equal]
pub ghost enum IdentV {
    Num(u64),
    Alpha(Seq<char>),
}

impl View for Ident {
    type V = IdentV;

    open spec fn view(&self) -> IdentV {
        match self {
            Ident::Num(n) => IdentV::Num(*n),
            Ident::Alpha(s) => IdentV::Alpha(s@),
        }
    }
}

/// A semantic version.
#[derive(Debug)]
pub struct Version {
    pub major: u64,
    pub minor: u64,
    pub patch: u64,
    pub pre: Vec<Ident>,
    pub build: Vec<Ident>,
}

/// The values of a list of identifiers.
pub open spec fn idents_view(l: Seq<Ident>) -> Seq<IdentV> {
    l.map_values(|x: Ident| x@)
}

/// The mathematical value of a [`Version`].
#[verifier::ext_equal]
pub ghost struct VersionV {
    pub major: u64,
    pub minor: u64,
    pub patch: u64,
    pub pre: Seq<IdentV>,
    pub build: Seq<IdentV>,
}

impl View for Version {
    type V = VersionV;

    open spec fn view(&self) -> VersionV {
        VersionV {
            major: self.major,
            minor: self.minor,
            patch: self.patch,
            pre: idents_view(self.pre@),
            build: idents_view(self.build@),
        }
    }
}

/// Lexicographic (code-point) order on character sequences, read from
/// position `i` on.
pub open spec fn chars_lt_at(a: Seq<char>, b: Seq<char>, i: int) -> bool
    decreases a.len() - i,
{
    if i >= b.len() {
        false
    } else if i >= a.len() {
        true
    } else if a[i] != b[i] {
        (a[i] as u32) < (b[i] as u32)
    } else {
        chars_lt_at(a, b, i + 1)
    }
}

/// Lexicographic (code-point) order on character sequences.
pub open spec fn chars_lt(a: Seq<char>, b: Seq<char>) -> bool {
    chars_lt_at(a, b, 0)
}

/// Identifier equality: same kind and same value.
pub open spec fn ident_eq(a: IdentV, b: IdentV) -> bool {
    match (a, b) {
        (IdentV::Num(x), IdentV::Num(y)) => x == y,
        (IdentV::Alpha(x), IdentV::Alpha(y)) => x == y,
        _ => false,
    }
}

/// Identifier precedence: numeric identifiers compare numerically and are
/// always lower than alphanumeric ones; alphanumeric identifiers compare
/// lexicographically.
pub open spec fn ident_lt(a: IdentV, b: IdentV) -> bool {
    match (a, b) {
        (IdentV::Num(x), IdentV::Num(y)) => x < y,
        (IdentV::Num(_), IdentV::Alpha(_)) => true,
        (IdentV::Alpha(_), IdentV::Num(_)) => false,
        (IdentV::Alpha(x), IdentV::Alpha(y)) => chars_lt(x, y),
    }
}

/// Precedence order on identifier lists, read from position `i` on: compare
/// element by element; a strict prefix is lower.
pub open spec fn idents_lt_at(a: Seq<IdentV>, b: Seq<IdentV>, i: int) -> bool
    decreases a.len() - i,
{
    if i >= a.len() {
        i < b.len()
    } else if i >= b.len() {
        false
    } else if !ident_eq(a[i], b[i]) {
        ident_lt(a[i], b[i])
    } else {
        idents_lt_at(a, b, i + 1)
    }
}

/// Equality of identifier lists, element by element.
pub open spec fn idents_eq(a: Seq<IdentV>, b: Seq<IdentV>) -> bool {
    a.len() == b.len() && forall|i: int| 0 <= i < a.len() ==> ident_eq(a[i], b[i])
}

/// Pre-release precedence: a version without a pre-release list is higher
/// than any pre-release of the same numeric triple.
pub open spec fn pre_lt(a: Seq<IdentV>, b: Seq<IdentV>) -> bool {
    if a.len() == 0 {
        false
    } else if b.len() == 0 {
        true
    } else {
        idents_lt_at(a, b, 0)
    }
}

/// `a >= b` on pre-release lists under [`pre_lt`].
pub open spec fn pre_ge(a: Seq<IdentV>, b: Seq<IdentV>) -> bool {
    !pre_lt(a, b)
}

/// Semantic-version precedence (build metadata is ignored).
pub open spec fn spec_version_lt(a: VersionV, b: VersionV) -> bool {
    if a.major != b.major {
        a.major < b.major
    } else if a.minor != b.minor {
        a.minor < b.minor
    } else if a.patch != b.patch {
        a.patch < b.patch
    } else {
        pre_lt(a.pre, b.pre)
    }
}

/// Full equality of two versions, build metadata included.
pub open spec fn spec_version_eq(a: VersionV, b: VersionV) -> bool {
    &&& a.major == b.major
    &&& a.minor == b.minor
    &&& a.patch == b.patch
    &&& idents_eq(a.pre, b.pre)
    &&& idents_eq(a.build, b.build)
}

impl Clone for Ident {
    fn clone(&self) -> (r: Self)
        ensures
            r@ == self@,
    {
        match self {
            Ident::Num(n) => Ident::Num(*n),
            Ident::Alpha(s) => Ident::Alpha(s.clone()),
        }
    }
}

/// Clones a list of identifiers, preserving its value.
pub fn clone_idents(l: &Vec<Ident>) -> (r: Vec<Ident>)
    ensures
        r@.len() == l@.len(),
        forall|i: int| 0 <= i < l@.len() ==> r@[i]@ == l@[i]@,
{
    let mut out: Vec<Ident> = Vec::new();
    let mut k: usize = 0;
    while k < l.len()
        invariant
            k <= l@.len(),
            out@.len() == k,
            forall|i: int| 0 <= i < k ==> out@[i]@ == l@[i]@,
        decreases l@.len() - k,
    {
        out.push(l[k].clone());
        k += 1;
    }
    out
}

impl Clone for Version {
    fn clone(&self) -> (r: Self)
        ensures
            r@ == self@,
    {
        let r = Version {
            major: self.major,
            minor: self.minor,
            patch: self.patch,
            pre: clone_idents(&self.pre),
            build: clone_idents(&self.build),
        };
        proof {
            assert(r@.pre =~= self@.pre);
            assert(r@.build =~= self@.build);
        }
        r
    }
}

impl Version {
    /// Whether the version carries a pre-release list.
    pub fn is_prerelease(&self) -> (r: bool)
        ensures
            r == (self@.pre.len() > 0),
    {
        self.pre.len() > 0
    }
}

/// Compares two strings in code-point order.
fn str_lt(a: &str, b: &str) -> (r: bool)
    ensures
        r == chars_lt(a@, b@),
{
    let alen = a.unicode_len();
    let blen = b.unicode_len();
    let mut i: usize = 0;
    while i < alen && i < blen
        invariant
            i <= alen,
            i <= blen,
            alen == a@.len(),
            blen == b@.len(),
            chars_lt(a@, b@) == chars_lt_at(a@, b@, i as int),
        decreases alen - i,
    {
        let ca = a.get_char(i);
        let cb = b.get_char(i);
        if ca != cb {
            return (ca as u32) < (cb as u32);
        }
        i += 1;
    }
    i < blen
}

/// Compares two strings for equality of contents.
pub fn str_eq(a: &str, b: &str) -> (r: bool)
    ensures
        r == (a@ == b@),
{
    let alen = a.unicode_len();
    let blen = b.unicode_len();
    if alen != blen {
        return false;
    }
    let mut i: usize = 0;
    while i < alen
        invariant
            i <= alen,
            alen == a@.len(),
            alen == b@.len(),
            forall|j: int| 0 <= j < i ==> a@[j] == b@[j],
        decreases alen - i,
    {
        if a.get_char(i) != b.get_char(i) {
            return false;
        }
        i += 1;
    }
    proof {
        assert(a@ =~= b@);
    }
    true
}

/// Compares two identifiers for equality of value.
fn ident_eq_exec(a: &Ident, b: &Ident) -> (r: bool)
    ensures
        r == ident_eq(a@, b@),
{
    match (a, b) {
        (Ident::Num(x), Ident::Num(y)) => *x == *y,
        (Ident::Alpha(x), Ident::Alpha(y)) => str_eq(x.as_str(), y.as_str()),
        _ => false,
    }
}

/// Compares two identifiers by precedence.
fn ident_lt_exec(a: &Ident, b: &Ident) -> (r: bool)
    ensures
        r == ident_lt(a@, b@),
{
    match (a, b) {
        (Ident::Num(x), Ident::Num(y)) => *x < *y,
        (Ident::Num(_), Ident::Alpha(_)) => true,
        (Ident::Alpha(_), Ident::Num(_)) => false,
        (Ident::Alpha(x), Ident::Alpha(y)) => str_lt(x.as_str(), y.as_str()),
    }
}

/// Compares two identifier lists by precedence.
pub fn idents_lt_exec(a: &Vec<Ident>, b: &Vec<Ident>) -> (r: bool)
    ensures
        r == idents_lt_at(a@.map_values(|x: Ident| x@), b@.map_values(|x: Ident| x@), 0),
{
    let ghost av = a@.map_values(|x: Ident| x@);
    let ghost bv = b@.map_values(|x: Ident| x@);
    let mut i: usize = 0;
    while i < a.len() && i < b.len()
        invariant
            i <= a@.len(),
            i <= b@.len(),
            av == a@.map_values(|x: Ident| x@),
            bv == b@.map_values(|x: Ident| x@),
            idents_lt_at(av, bv, 0) == idents_lt_at(av, bv, i as int),
        decreases a@.len() - i,
    {
        if !ident_eq_exec(&a[i], &b[i]) {
            return ident_lt_exec(&a[i], &b[i]);
        }
        i += 1;
    }
    i < b.len()
}

/// Compares two identifier lists for equality of value.
pub fn idents_eq_exec(a: &Vec<Ident>, b: &Vec<Ident>) -> (r: bool)
    ensures
        r == idents_eq(a@.map_values(|x: Ident| x@), b@.map_values(|x: Ident| x@)),
{
    let ghost av = a@.map_values(|x: Ident| x@);
    let ghost bv = b@.map_values(|x: Ident| x@);
    proof {
        assert(av.len() == a@.len());
        assert(bv.len() == b@.len());
        assert(forall|j: int| 0 <= j < a@.len() ==> av[j] == a@[j]@);
        assert(forall|j: int| 0 <= j < b@.len() ==> bv[j] == b@[j]@);
    }
    if a.len() != b.len() {
        return false;
    }
    let mut i: usize = 0;
    while i < a.len()
        invariant
            i <= a@.len(),
            a@.len() == b@.len(),
            av == a@.map_values(|x: Ident| x@),
            bv == b@.map_values(|x: Ident| x@),
            forall|j: int| 0 <= j < i ==> ident_eq(av[j], bv[j]),
        decreases a@.len() - i,
    {
        if !ident_eq_exec(&a[i], &b[i]) {
            proof {
                assert(!ident_eq(av[i as int], bv[i as int]));
            }
            return false;
        }
        i += 1;
    }
    true
}

impl Version {
    /// Strict precedence order: `self < other`.
    pub fn lt(&self, other: &Version) -> (r: bool)
        ensures
            r == spec_version_lt(self@, other@),
    {
        if self.major != other.major {
            self.major < other.major
        } else if self.minor != other.minor {
            self.minor < other.minor
        } else if self.patch != other.patch {
            self.patch < other.patch
        } else if self.pre.len() == 0 {
            false
        } else if other.pre.len() == 0 {
            true
        } else {
            proof {
                assert(self@.pre.len() == self.pre@.len());
                assert(self@.pre =~= self.pre@.map_values(|x: Ident| x@));
                assert(other@.pre =~= other.pre@.map_values(|x: Ident| x@));
            }
            idents_lt_exec(&self.pre, &other.pre)
        }
    }

    /// Full equality of value, build metadata included.
    pub fn eq_version(&self, other: &Version) -> (r: bool)
        ensures
            r == spec_version_eq(self@, other@),
    {
        proof {
            assert(self@.pre =~= self.pre@.map_values(|x: Ident| x@));
            assert(other@.pre =~= other.pre@.map_values(|x: Ident| x@));
            assert(self@.build =~= self.build@.map_values(|x: Ident| x@));
            assert(other@.build =~= other.build@.map_values(|x: Ident| x@));
        }
        self.major == other.major && self.minor == other.minor && self.patch == other.patch
            && idents_eq_exec(&self.pre, &other.pre) && idents_eq_exec(&self.build, &other.build)
    }
}

/// The decimal digit character for `d` (0 through 9).
pub open spec fn spec_digit(d: int) -> char {
    if d == 0 {
        '0'
    } else if d == 1 {
        '1'
    } else if d == 2 {
        '2'
    } else if d == 3 {
        '3'
    } else if d == 4 {
        '4'
    } else if d == 5 {
        '5'
    } else if d == 6 {
        '6'
    } else if d == 7 {
        '7'
    } else if d == 8 {
        '8'
    } else {
        '9'
    }
}

/// The decimal rendering of a non-negative integer.
pub open spec fn spec_dec(n: int) -> Seq<char>
    decreases n,
{
    if n < 10 {
        seq![spec_digit(n)]
    } else {
        spec_dec(n / 10).push(spec_digit(n % 10))
    }
}

/// A one-character string for a single decimal digit.
fn digit_str(d: u64) -> (r: &'static str)
    requires
        d < 10,
    ensures
        r@ =~= seq![spec_digit(d as int)],
{
    proof {
        reveal_strlit("0");
        reveal_strlit("1");
        reveal_strlit("2");
        reveal_strlit("3");
        reveal_strlit("4");
        reveal_strlit("5");
        reveal_strlit("6");
        reveal_strlit("7");
        reveal_strlit("8");
        reveal_strlit("9");
    }
    if d == 0 {
        "0"
    } else if d == 1 {
        "1"
    } else if d == 2 {
        "2"
    } else if d == 3 {
        "3"
    } else if d == 4 {
        "4"
    } else if d == 5 {
        "5"
    } else if d == 6 {
        "6"
    } else if d == 7 {
        "7"
    } else if d == 8 {
        "8"
    } else {
        "9"
    }
}

/// Renders a number in decimal.
pub fn dec_str(n: u64) -> (r: String)
    ensures
        r@ == spec_dec(n as int),
    decreases n,
{
    if n < 10 {
        let r = String::from_str(digit_str(n));
        proof {
            assert(r@ =~= spec_dec(n as int));
        }
        r
    } else {
        let mut s = dec_str(n / 10);
        s.append(digit_str(n % 10));
        proof {
            assert(s@ =~= spec_dec(n as int));
        }
        s
    }
}

/// The rendering of one identifier.
pub open spec fn spec_ident_str(x: IdentV) -> Seq<char> {
    match x {
        IdentV::Num(n) => spec_dec(n as int),
        IdentV::Alpha(s) => s,
    }
}

/// The dot-joined rendering of an identifier list, from position `i` on.
pub open spec fn spec_idents_str_from(l: Seq<IdentV>, i: int) -> Seq<char>
    decreases l.len() - i,
{
    if i < 0 || i >= l.len() {
        Seq::empty()
    } else if i == l.len() - 1 {
        spec_ident_str(l[i])
    } else {
        spec_ident_str(l[i]) + seq!['.'] + spec_idents_str_from(l, i + 1)
    }
}

/// The dot-joined rendering of an identifier list.
pub open spec fn spec_idents_str(l: Seq<IdentV>) -> Seq<char> {
    spec_idents_str_from(l, 0)
}

fn idents_str_from(l: &Vec<Ident>, i: usize) -> (r: String)
    ensures
        r@ == spec_idents_str_from(idents_view(l@), i as int),
    decreases l@.len() - i,
{
    let ghost lv = idents_view(l@);
    proof {
        assert(lv.len() == l@.len());
        assert(forall|j: int| 0 <= j < l@.len() ==> lv[j] == l@[j]@);
    }
    if i >= l.len() {
        let r = String::new();
        proof {
            assert(r@ =~= spec_idents_str_from(lv, i as int));
        }
        r
    } else {
        let head = match &l[i] {
            Ident::Num(n) => dec_str(*n),
            Ident::Alpha(s) => s.clone(),
        };
        if i == l.len() - 1 {
            proof {
                assert(head@ =~= spec_idents_str_from(lv, i as int));
            }
            head
        } else {
            let mut s = head;
            s.append(".");
            let rest = idents_str_from(l, i + 1);
            s.append(rest.as_str());
            proof {
                reveal_strlit(".");
                assert(s@ =~= spec_idents_str_from(lv, i as int));
            }
            s
        }
    }
}

/// Renders an identifier list, dot-joined.
pub fn idents_str(l: &Vec<Ident>) -> (r: String)
    ensures
        r@ == spec_idents_str(idents_view(l@)),
{
    idents_str_from(l, 0)
}

/// The canonical text of a version: `major.minor.patch`, then `-pre` when a
/// pre-release list is present, then `+build` when build metadata is present.
pub open spec fn spec_version_str(v: VersionV) -> Seq<char> {
    spec_dec(v.major as int) + seq!['.'] + spec_dec(v.minor as int) + seq!['.'] + spec_dec(
        v.patch as int,
    ) + (if v.pre.len() > 0 {
        seq!['-'] + spec_idents_str(v.pre)
    } else {
        Seq::empty()
    }) + (if v.build.len() > 0 {
        seq!['+'] + spec_idents_str(v.build)
    } else {
        Seq::empty()
    })
}

/// Renders a version as its canonical text.
pub fn version_str(v: &Version) -> (r: String)
    ensures
        r@ == spec_version_str(v@),
{
    let mut s = dec_str(v.major);
    s.append(".");
    let minor_s = dec_str(v.minor);
    s.append(minor_s.as_str());
    s.append(".");
    let patch_s = dec_str(v.patch);
    s.append(patch_s.as_str());
    if v.pre.len() > 0 {
        s.append("-");
        let p = idents_str_from(&v.pre, 0);
        s.append(p.as_str());
    }
    if v.build.len() > 0 {
        s.append("+");
        let b = idents_str_from(&v.build, 0);
        s.append(b.as_str());
    }
    proof {
        reveal_strlit(".");
        reveal_strlit("-");
        reveal_strlit("+");
        assert(s@ =~= spec_version_str(v@));
    }
    s
}

/// Numeric identifiers that can still be incremented.
pub open spec fn ident_bounded(x: IdentV) -> bool {
    match x {
        IdentV::Num(n) => n < u64::MAX,
        IdentV::Alpha(_) => true,
    }
}

/// A version whose numeric components can still be incremented; every
/// version that a package manager accepts in practice satisfies this.
pub open spec fn version_bounded(v: VersionV) -> bool {
    &&& v.major < u64::MAX
    &&& v.minor < u64::MAX
    &&& v.patch < u64::MAX
    &&& forall|i: int| 0 <= i < v.pre.len() ==> ident_bounded(v.pre[i])
}

/// A named bump level for a relative version request.
#[derive(Clone, Copy, Debug, PartialEq, Eq, Structural)]
pub enum BumpLevel {
    Major,
    Minor,
    Patch,
    Release,
    Rc,
    Beta,
    Alpha,
}

/// The name of the pre-release track a bump level moves to.
pub open spec fn spec_track_name(level: BumpLevel) -> Seq<char> {
    match level {
        BumpLevel::Rc => "rc"@,
        BumpLevel::Beta => "beta"@,
        BumpLevel::Alpha => "alpha"@,
        _ => Seq::empty(),
    }
}

/// The name carried by the first pre-release identifier, if it is textual.
pub open spec fn spec_pre_name(pre: Seq<IdentV>) -> Option<Seq<char>> {
    if pre.len() > 0 {
        match pre[0] {
            IdentV::Alpha(s) => Option::Some(s),
            IdentV::Num(_) => Option::None,
        }
    } else {
        Option::None
    }
}

/// The counter carried by the second pre-release identifier, if numeric.
pub open spec fn spec_pre_counter(pre: Seq<IdentV>) -> u64 {
    if pre.len() >= 2 {
        match pre[1] {
            IdentV::Num(n) => n,
            IdentV::Alpha(_) => 0,
        }
    } else {
        0
    }
}

/// Whether moving to `level`'s pre-release track from the current list would
/// go backwards (the track order is `alpha`, then `beta`, then `rc`).
pub open spec fn spec_track_conflict(level: BumpLevel, pre: Seq<IdentV>) -> bool {
    match spec_pre_name(pre) {
        Option::Some(name) => match level {
            BumpLevel::Alpha => name == "beta"@ || name == "rc"@,
            BumpLevel::Beta => name == "rc"@,
            _ => false,
        },
        Option::None => false,
    }
}

/// The pre-release list for a track bump: the track name and a counter.
pub open spec fn spec_track_pre(level: BumpLevel, old_pre: Seq<IdentV>) -> Seq<IdentV> {
    seq![
        IdentV::Alpha(spec_track_name(level)),
        IdentV::Num(
            if spec_pre_name(old_pre) == Option::Some(spec_track_name(level)) {
                (spec_pre_counter(old_pre) + 1) as u64
            } else {
                1u64
            },
        ),
    ]
}

/// What a relative bump level does to a version.  `Ok(None)` means the
/// version already satisfies the requested level and no release is needed.
pub open spec fn spec_bump_level(level: BumpLevel, v: VersionV) -> Result<
    Option<VersionV>,
    FatalError,
> {
    match level {
        BumpLevel::Major => Result::Ok(
            Option::Some(
                VersionV {
                    major: (v.major + 1) as u64,
                    minor: 0,
                    patch: 0,
                    pre: Seq::empty(),
                    build: Seq::empty(),
                },
            ),
        ),
        BumpLevel::Minor => Result::Ok(
            Option::Some(
                VersionV {
                    major: v.major,
                    minor: (v.minor + 1) as u64,
                    patch: 0,
                    pre: Seq::empty(),
                    build: Seq::empty(),
                },
            ),
        ),
        BumpLevel::Patch => Result::Ok(
            Option::Some(
                if v.pre.len() == 0 {
                    VersionV {
                        major: v.major,
                        minor: v.minor,
                        patch: (v.patch + 1) as u64,
                        pre: Seq::empty(),
                        build: Seq::empty(),
                    }
                } else {
                    VersionV { major: v.major, minor: v.minor, patch: v.patch, pre: Seq::empty(), build: v.build }
                },
            ),
        ),
        BumpLevel::Release => {
            if v.pre.len() > 0 {
                Result::Ok(
                    Option::Some(
                        VersionV {
                            major: v.major,
                            minor: v.minor,
                            patch: v.patch,
                            pre: Seq::empty(),
                            build: v.build,
                        },
                    ),
                )
            } else {
                Result::Ok(Option::None)
            }
        },
        _ => {
            // A pre-release track: alpha, beta or rc.
            if spec_track_conflict(level, v.pre) {
                Result::Err(FatalError::UnsupportedPrereleaseVersionScheme)
            } else if v.pre.len() == 0 {
                Result::Ok(
                    Option::Some(
                        VersionV {
                            major: v.major,
                            minor: v.minor,
                            patch: (v.patch + 1) as u64,
                            pre: spec_track_pre(level, v.pre),
                            build: Seq::empty(),
                        },
                    ),
                )
            } else {
                Result::Ok(
                    Option::Some(
                        VersionV {
                            major: v.major,
                            minor: v.minor,
                            patch: v.patch,
                            pre: spec_track_pre(level, v.pre),
                            build: v.build,
                        },
                    ),
                )
            }
        },
    }
}

/// A requested target for the next version: a relative bump level or an
/// absolute version.
#[derive(Debug)]
pub enum TargetVersion {
    Relative(BumpLevel),
    Absolute(Version),
}

/// The mathematical value of a [`TargetVersion`].
pub ghost enum TargetVersionV {
    Relative(BumpLevel),
    Absolute(VersionV),
}

impl View for TargetVersion {
    type V = TargetVersionV;

    open spec fn view(&self) -> TargetVersionV {
        match self {
            TargetVersion::Relative(l) => TargetVersionV::Relative(*l),
            TargetVersion::Absolute(v) => TargetVersionV::Absolute(v@),
        }
    }
}

/// Replaces the build metadata of a decided version, when requested.
pub open spec fn spec_with_metadata(v: VersionV, meta: Option<Seq<IdentV>>) -> VersionV {
    match meta {
        Option::Some(m) => VersionV { major: v.major, minor: v.minor, patch: v.patch, pre: v.pre, build: m },
        Option::None => v,
    }
}

/// The version decision: what `TargetVersion::bump` returns, as a value.
///
/// An absolute target equal to the current version decides "no change";
/// a smaller absolute target is rejected; a larger one is adopted.  A
/// relative target follows [`spec_bump_level`], then applies the requested
/// build metadata to a changed version.
pub open spec fn spec_decide(
    t: TargetVersionV,
    cur: VersionV,
    meta: Option<Seq<IdentV>>,
) -> Result<Option<VersionV>, FatalError> {
    match t {
        TargetVersionV::Relative(level) => match spec_bump_level(level, cur) {
            Result::Ok(Option::Some(v)) => Result::Ok(Option::Some(spec_with_metadata(v, meta))),
            Result::Ok(Option::None) => Result::Ok(Option::None),
            Result::Err(e) => Result::Err(e),
        },
        TargetVersionV::Absolute(v) => {
            if spec_version_lt(cur, v) {
                Result::Ok(Option::Some(v))
            } else if spec_version_eq(cur, v) {
                Result::Ok(Option::None)
            } else {
                Result::Err(FatalError::UnsupportedVersionReq)
            }
        },
    }
}

/// Relates an executable decision to its specified value.
pub open spec fn decide_matches(
    r: Result<Option<Version>, FatalError>,
    s: Result<Option<VersionV>, FatalError>,
) -> bool {
    match (r, s) {
        (Result::Ok(Option::None), Result::Ok(Option::None)) => true,
        (Result::Ok(Option::Some(v)), Result::Ok(Option::Some(w))) => v@ == w,
        (Result::Err(e1), Result::Err(e2)) => e1 == e2,
        _ => false,
    }
}

/// The view of an optional identifier list handed in by reference.
pub open spec fn spec_meta_view(m: Option<&Vec<Ident>>) -> Option<Seq<IdentV>> {
    match m {
        Option::Some(l) => Option::Some(idents_view(l@)),
        Option::None => Option::None,
    }
}

fn make_track_pre(level: BumpLevel, old_pre: &Vec<Ident>) -> (r: Vec<Ident>)
    requires
        matches!(level, BumpLevel::Rc | BumpLevel::Beta | BumpLevel::Alpha),
        forall|i: int|
            0 <= i < idents_view(old_pre@).len() ==> ident_bounded(idents_view(old_pre@)[i]),
        !spec_track_conflict(level, idents_view(old_pre@)),
    ensures
        idents_view(r@) =~= spec_track_pre(level, idents_view(old_pre@)),
{
    let ghost prev = idents_view(old_pre@);
    proof {
        assert(prev.len() == old_pre@.len());
        assert(forall|j: int| 0 <= j < old_pre@.len() ==> prev[j] == old_pre@[j]@);
    }
    let name: &'static str = match level {
        BumpLevel::Rc => "rc",
        BumpLevel::Beta => "beta",
        BumpLevel::Alpha => "alpha",
        _ => "",
    };
    let same_track: bool = if old_pre.len() > 0 {
        match &old_pre[0] {
            Ident::Alpha(s) => str_eq(s.as_str(), name),
            Ident::Num(_) => false,
        }
    } else {
        false
    };
    let counter: u64 = if same_track {
        let prev_n: u64 = if old_pre.len() >= 2 {
            match &old_pre[1] {
                Ident::Num(n) => *n,
                Ident::Alpha(_) => 0,
            }
        } else {
            0
        };
        proof {
            if old_pre@.len() >= 2 {
                assert(prev[1] == old_pre@[1]@);
            }
            assert(ident_bounded(prev[1]) || old_pre@.len() < 2 || !(prev[1] is Num));
        }
        prev_n + 1
    } else {
        1
    };
    let mut r: Vec<Ident> = Vec::new();
    r.push(Ident::Alpha(String::from_str(name)));
    r.push(Ident::Num(counter));
    proof {
        assert(same_track == (spec_pre_name(prev) == Option::Some(spec_track_name(level))));
        assert(idents_view(r@) =~= spec_track_pre(level, prev));
    }
    r
}

impl TargetVersion {
    /// Decides the next version from the current one, or `None` when no
    /// release is needed, per [`spec_decide`].
    pub fn bump(&self, current: &Version, metadata: Option<&Vec<Ident>>) -> (r: Result<
        Option<Version>,
        FatalError,
    >)
        requires
            version_bounded(current@),
        ensures
            decide_matches(r, spec_decide(self@, current@, spec_meta_view(metadata))),
    {
        let ghost sd = spec_decide(self@, current@, spec_meta_view(metadata));
        match self {
            TargetVersion::Absolute(t) => {
                if current.lt(t) {
                    Result::Ok(Option::Some(t.clone()))
                } else if current.eq_version(t) {
                    Result::Ok(Option::None)
                } else {
                    Result::Err(FatalError::UnsupportedVersionReq)
                }
            },
            TargetVersion::Relative(level) => {
                let bumped: Option<Version> = match level {
                    BumpLevel::Major => Option::Some(
                        Version {
                            major: current.major + 1,
                            minor: 0,
                            patch: 0,
                            pre: Vec::new(),
                            build: Vec::new(),
                        },
                    ),
                    BumpLevel::Minor => Option::Some(
                        Version {
                            major: current.major,
                            minor: current.minor + 1,
                            patch: 0,
                            pre: Vec::new(),
                            build: Vec::new(),
                        },
                    ),
                    BumpLevel::Patch => {
                        if current.pre.len() == 0 {
                            Option::Some(
                                Version {
                                    major: current.major,
                                    minor: current.minor,
                                    patch: current.patch + 1,
                                    pre: Vec::new(),
                                    build: Vec::new(),
                                },
                            )
                        } else {
                            Option::Some(
                                Version {
                                    major: current.major,
                                    minor: current.minor,
                                    patch: current.patch,
                                    pre: Vec::new(),
                                    build: clone_idents(&current.build),
                                },
                            )
                        }
                    },
                    BumpLevel::Release => {
                        if current.pre.len() > 0 {
                            Option::Some(
                                Version {
                                    major: current.major,
                                    minor: current.minor,
                                    patch: current.patch,
                                    pre: Vec::new(),
                                    build: clone_idents(&current.build),
                                },
                            )
                        } else {
                            return Result::Ok(Option::None);
                        }
                    },
                    _ => {
                        // A pre-release track: alpha, beta or rc.
                        let conflict: bool = if current.pre.len() > 0 {
                            match &current.pre[0] {
                                Ident::Alpha(s) => match level {
                                    BumpLevel::Alpha => str_eq(s.as_str(), "beta") || str_eq(
                                        s.as_str(),
                                        "rc",
                                    ),
                                    BumpLevel::Beta => str_eq(s.as_str(), "rc"),
                                    _ => false,
                                },
                                Ident::Num(_) => false,
                            }
                        } else {
                            false
                        };
                        proof {
                            assert(current@.pre.len() == current.pre@.len());
                            if current.pre@.len() > 0 {
                                assert(current@.pre[0] == current.pre@[0]@);
                            }
                            assert(conflict == spec_track_conflict(*level, current@.pre));
                        }
                        if conflict {
                            return Result::Err(FatalError::UnsupportedPrereleaseVersionScheme);
                        }
                        proof {
                            assert(idents_view(current.pre@) == current@.pre);
                        }
                        let new_pre = make_track_pre(*level, &current.pre);
                        if current.pre.len() == 0 {
                            Option::Some(
                                Version {
                                    major: current.major,
                                    minor: current.minor,
                                    patch: current.patch + 1,
                                    pre: new_pre,
                                    build: Vec::new(),
                                },
                            )
                        } else {
                            Option::Some(
                                Version {
                                    major: current.major,
                                    minor: current.minor,
                                    patch: current.patch,
                                    pre: new_pre,
                                    build: clone_idents(&current.build),
                                },
                            )
                        }
                    },
                };
                match bumped {
                    Option::Some(mut v) => {
                        if let Option::Some(m) = metadata {
                            v.build = clone_idents(m);
                        }
                        proof {
                            assert(idents_view(v.build@) =~= match spec_meta_view(metadata) {
                                Option::Some(mm) => mm,
                                Option::None => v@.build,
                            });
                            assert(sd matches Result::Ok(o) && o matches Option::Some(w) && v@ =~= w);
                        }
                        Result::Ok(Option::Some(v))
                    },
                    Option::None => Result::Ok(Option::None),
                }
            },
        }
    }
}

/// The post-release development version of `v`: patch-incremented and tagged
/// with the development suffix as its only pre-release identifier.
pub open spec fn spec_post(v: VersionV, ext: Seq<char>) -> VersionV {
    VersionV {
        major: v.major,
        minor: v.minor,
        patch: (v.patch + 1) as u64,
        pre: seq![IdentV::Alpha(ext)],
        build: Seq::empty(),
    }
}

/// Computes the post-release development version.
pub fn post_increment(base: &Version, dev_ext: &str) -> (r: Version)
    requires
        base@.patch < u64::MAX,
    ensures
        r@ == spec_post(base@, dev_ext@),
{
    let mut pre: Vec<Ident> = Vec::new();
    pre.push(Ident::Alpha(String::from_str(dev_ext)));
    let r = Version {
        major: base.major,
        minor: base.minor,
        patch: base.patch + 1,
        pre,
        build: Vec::new(),
    };
    proof {
        assert(r@ =~= spec_post(base@, dev_ext@));
    }
    r
}

/// The post-release development version is strictly greater than the version
/// it follows, and always carries a pre-release (development) tag.
pub proof fn lemma_post_release_greater(v: VersionV, ext: Seq<char>)
    requires
        v.patch < u64::MAX,
    ensures
        spec_version_lt(v, spec_post(v, ext)),
        spec_post(v, ext).pre.len() > 0,
{
}

/// The decision rule for absolute targets, stated on its own: a target equal
/// to the current version decides "no change", a smaller target is rejected
/// as unsupported, and a larger target is adopted verbatim.
pub proof fn lemma_decide_absolute(t: VersionV, cur: VersionV, meta: Option<Seq<IdentV>>)
    ensures
        spec_version_lt(cur, t) ==> spec_decide(TargetVersionV::Absolute(t), cur, meta)
            == Result::<Option<VersionV>, FatalError>::Ok(Option::Some(t)),
        spec_version_eq(cur, t) && !spec_version_lt(cur, t) ==> spec_decide(
            TargetVersionV::Absolute(t),
            cur,
            meta,
        ) == Result::<Option<VersionV>, FatalError>::Ok(Option::None),
        !spec_version_lt(cur, t) && !spec_version_eq(cur, t) ==> spec_decide(
            TargetVersionV::Absolute(t),
            cur,
            meta,
        ) == Result::<Option<VersionV>, FatalError>::Err(FatalError::UnsupportedVersionReq),
{
}

} // verus!
