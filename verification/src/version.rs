//! Semantic versions, their precedence order, and matching a list of
//! published version strings against a version constraint.
//!
//! Parsing of version strings and evaluation of constraint expressions are
//! delegated to the `semver` crate behind trusted declarations; the
//! precedence order and the selection of the best matching candidate are
//! verified here.
use vstd::prelude::*;

use crate::Crate2BibError;
use crate::text::{chars_of, spec_split, split_vec};

verus! {

/// A semantic version: numeric parts plus the raw pre-release and build
/// identifier strings (empty when absent). Build metadata is carried for
/// rendering only and is ignored by precedence.
#[derive(Clone, Debug)]
pub struct SemVer {
    pub major: u64,
    pub minor: u64,
    pub patch: u64,
    /// Dot-separated pre-release identifiers, e.g. `"alpha.1"`.
    pub pre: String,
    /// Build metadata after `+`, e.g. `"20130313144700"`.
    pub build: String,
}

/// The mathematical value of a [`SemVer`].
pub ghost struct SemVerV {
    pub major: int,
    pub minor: int,
    pub patch: int,
    pub pre: Seq<char>,
    pub build: Seq<char>,
}

impl View for SemVer {
    type V = SemVerV;

    open spec fn view(&self) -> SemVerV {
        SemVerV {
            major: self.major as int,
            minor: self.minor as int,
            patch: self.patch as int,
            pre: self.pre@,
            build: self.build@,
        }
    }
}

/// True of a decimal digit character.
pub open spec fn is_digit(c: char) -> bool {
    '0' <= c && c <= '9'
}

/// True when the identifier consists of digits alone.
pub open spec fn ident_numeric(s: Seq<char>) -> bool {
    forall|i: int| 0 <= i < s.len() ==> is_digit(s[i])
}

/// Lexicographic order on character sequences, by code point, with a
/// proper prefix ordered before its extensions.
pub open spec fn lex_lt(a: Seq<char>, b: Seq<char>) -> bool
    decreases a.len(),
{
    if b.len() == 0 {
        false
    } else if a.len() == 0 {
        true
    } else if a[0] != b[0] {
        a[0] < b[0]
    } else {
        lex_lt(a.skip(1), b.skip(1))
    }
}

/// Order on single pre-release identifiers: numeric identifiers compare
/// numerically (equivalently: by length, then lexicographically, as
/// numeric identifiers carry no leading zeroes) and come before
/// alphanumeric ones; alphanumeric identifiers compare lexicographically.
pub open spec fn ident_lt(a: Seq<char>, b: Seq<char>) -> bool {
    if ident_numeric(a) && ident_numeric(b) {
        a.len() < b.len() || (a.len() == b.len() && lex_lt(a, b))
    } else if ident_numeric(a) {
        true
    } else if ident_numeric(b) {
        false
    } else {
        lex_lt(a, b)
    }
}

/// Order on sequences of pre-release identifiers: identifier by
/// identifier, a shorter sequence before its extensions.
pub open spec fn idents_lt(x: Seq<Seq<char>>, y: Seq<Seq<char>>) -> bool
    decreases x.len(),
{
    if y.len() == 0 {
        false
    } else if x.len() == 0 {
        true
    } else if x[0] == y[0] {
        idents_lt(x.skip(1), y.skip(1))
    } else {
        ident_lt(x[0], y[0])
    }
}

/// Order on raw pre-release strings: a version with a pre-release comes
/// before the same version without one.
pub open spec fn pre_lt(a: Seq<char>, b: Seq<char>) -> bool {
    if a.len() == 0 {
        false
    } else if b.len() == 0 {
        true
    } else {
        idents_lt(spec_split(a, '.'), spec_split(b, '.'))
    }
}

/// Strict semantic-version precedence: major, then minor, then patch,
/// then pre-release; build metadata does not participate.
pub open spec fn sem_lt(a: SemVerV, b: SemVerV) -> bool {
    if a.major != b.major {
        a.major < b.major
    } else if a.minor != b.minor {
        a.minor < b.minor
    } else if a.patch != b.patch {
        a.patch < b.patch
    } else {
        pre_lt(a.pre, b.pre)
    }
}

proof fn lemma_lex_lt_asym(a: Seq<char>, b: Seq<char>)
    requires
        lex_lt(a, b),
    ensures
        !lex_lt(b, a),
    decreases a.len(),
{
    if b.len() == 0 {
    } else if a.len() == 0 {
    } else if a[0] != b[0] {
    } else {
        lemma_lex_lt_asym(a.skip(1), b.skip(1));
    }
}

proof fn lemma_lex_lt_trans(a: Seq<char>, b: Seq<char>, c: Seq<char>)
    requires
        lex_lt(a, b),
        lex_lt(b, c),
    ensures
        lex_lt(a, c),
    decreases a.len(),
{
    if a.len() == 0 {
    } else if a[0] == b[0] && b[0] == c[0] {
        lemma_lex_lt_trans(a.skip(1), b.skip(1), c.skip(1));
    }
}

proof fn lemma_ident_lt_asym(a: Seq<char>, b: Seq<char>)
    requires
        ident_lt(a, b),
    ensures
        !ident_lt(b, a),
{
    if ident_numeric(a) && ident_numeric(b) {
        if a.len() == b.len() && lex_lt(a, b) {
            lemma_lex_lt_asym(a, b);
        }
    } else if !ident_numeric(a) && !ident_numeric(b) {
        lemma_lex_lt_asym(a, b);
    }
}

proof fn lemma_ident_lt_trans(a: Seq<char>, b: Seq<char>, c: Seq<char>)
    requires
        ident_lt(a, b),
        ident_lt(b, c),
    ensures
        ident_lt(a, c),
{
    if ident_numeric(a) && ident_numeric(b) && ident_numeric(c) {
        if a.len() == b.len() && b.len() == c.len() {
            lemma_lex_lt_trans(a, b, c);
        }
    } else if !ident_numeric(a) && !ident_numeric(b) && !ident_numeric(c) {
        lemma_lex_lt_trans(a, b, c);
    }
}

proof fn lemma_idents_lt_asym(x: Seq<Seq<char>>, y: Seq<Seq<char>>)
    requires
        idents_lt(x, y),
    ensures
        !idents_lt(y, x),
    decreases x.len(),
{
    if y.len() == 0 {
    } else if x.len() == 0 {
    } else if x[0] == y[0] {
        lemma_idents_lt_asym(x.skip(1), y.skip(1));
    } else {
        lemma_ident_lt_asym(x[0], y[0]);
    }
}

proof fn lemma_idents_lt_trans(x: Seq<Seq<char>>, y: Seq<Seq<char>>, z: Seq<Seq<char>>)
    requires
        idents_lt(x, y),
        idents_lt(y, z),
    ensures
        idents_lt(x, z),
    decreases x.len(),
{
    if x.len() == 0 {
    } else if x[0] == y[0] && y[0] == z[0] {
        lemma_idents_lt_trans(x.skip(1), y.skip(1), z.skip(1));
    } else if x[0] == y[0] {
        // heads equal on the left: the strict step is ident_lt(y[0], z[0])
    } else if y[0] == z[0] {
    } else {
        lemma_ident_lt_trans(x[0], y[0], z[0]);
        if x[0] == z[0] {
            lemma_ident_lt_asym(x[0], y[0]);
        }
    }
}

proof fn lemma_pre_lt_trans(a: Seq<char>, b: Seq<char>, c: Seq<char>)
    requires
        pre_lt(a, b),
        pre_lt(b, c),
    ensures
        pre_lt(a, c),
{
    if a.len() != 0 && b.len() != 0 && c.len() != 0 {
        lemma_idents_lt_trans(spec_split(a, '.'), spec_split(b, '.'), spec_split(c, '.'));
    }
}

/// Precedence is asymmetric: no two versions are each below the other.
pub proof fn lemma_sem_lt_asym(a: SemVerV, b: SemVerV)
    requires
        sem_lt(a, b),
    ensures
        !sem_lt(b, a),
{
    if a.major == b.major && a.minor == b.minor && a.patch == b.patch {
        if b.pre.len() != 0 && a.pre.len() != 0 {
            lemma_idents_lt_asym(spec_split(a.pre, '.'), spec_split(b.pre, '.'));
        }
    }
}

/// Precedence is transitive.
pub proof fn lemma_sem_lt_trans(a: SemVerV, b: SemVerV, c: SemVerV)
    requires
        sem_lt(a, b),
        sem_lt(b, c),
    ensures
        sem_lt(a, c),
{
    if a.major == c.major && a.minor == c.minor && a.patch == c.patch && a.major == b.major
        && a.minor == b.minor && a.patch == b.patch {
        lemma_pre_lt_trans(a.pre, b.pre, c.pre);
    }
}

fn chars_eq(a: &Vec<char>, b: &Vec<char>) -> (r: bool)
    ensures
        r == (a@ == b@),
{
    if a.len() != b.len() {
        return false;
    }
    let mut i: usize = 0;
    while i < a.len()
        invariant
            a@.len() == b@.len(),
            i <= a@.len(),
            forall|j: int| 0 <= j < i ==> a@[j] == b@[j],
        decreases a@.len() - i,
    {
        if a[i] != b[i] {
            return false;
        }
        i = i + 1;
    }
    proof {
        assert(a@ =~= b@);
    }
    true
}

fn lex_lt_at(a: &Vec<char>, b: &Vec<char>, i: usize) -> (r: bool)
    requires
        i <= a@.len(),
        i <= b@.len(),
    ensures
        r == lex_lt(a@.skip(i as int), b@.skip(i as int)),
    decreases a@.len() - i,
{
    if i == b.len() {
        proof {
            assert(b@.skip(i as int).len() == 0);
        }
        false
    } else if i == a.len() {
        proof {
            assert(a@.skip(i as int).len() == 0);
            assert(b@.skip(i as int).len() > 0);
        }
        true
    } else {
        proof {
            assert(a@.skip(i as int)[0] == a@[i as int]);
            assert(b@.skip(i as int)[0] == b@[i as int]);
            assert(a@.skip(i as int).skip(1) =~= a@.skip(i as int + 1));
            assert(b@.skip(i as int).skip(1) =~= b@.skip(i as int + 1));
        }
        let ca = a[i];
        let cb = b[i];
        if ca != cb {
            ca < cb
        } else {
            lex_lt_at(a, b, i + 1)
        }
    }
}

fn lex_lt_exec(a: &Vec<char>, b: &Vec<char>) -> (r: bool)
    ensures
        r == lex_lt(a@, b@),
{
    proof {
        assert(a@.skip(0) =~= a@);
        assert(b@.skip(0) =~= b@);
    }
    lex_lt_at(a, b, 0)
}

fn ident_numeric_exec(a: &Vec<char>) -> (r: bool)
    ensures
        r == ident_numeric(a@),
{
    let mut i: usize = 0;
    while i < a.len()
        invariant
            i <= a@.len(),
            forall|j: int| 0 <= j < i ==> is_digit(a@[j]),
        decreases a@.len() - i,
    {
        let c = a[i];
        if !('0' <= c && c <= '9') {
            return false;
        }
        i = i + 1;
    }
    true
}

fn ident_lt_exec(a: &Vec<char>, b: &Vec<char>) -> (r: bool)
    ensures
        r == ident_lt(a@, b@),
{
    let na = ident_numeric_exec(a);
    let nb = ident_numeric_exec(b);
    if na && nb {
        if a.len() != b.len() {
            a.len() < b.len()
        } else {
            lex_lt_exec(a, b)
        }
    } else if na {
        true
    } else if nb {
        false
    } else {
        lex_lt_exec(a, b)
    }
}

fn idents_lt_at(x: &Vec<Vec<char>>, y: &Vec<Vec<char>>, i: usize) -> (r: bool)
    requires
        i <= x@.len(),
        i <= y@.len(),
    ensures
        r == idents_lt(x.deep_view().skip(i as int), y.deep_view().skip(i as int)),
    decreases x@.len() - i,
{
    proof {
        assert(x.deep_view().len() == x@.len());
        assert(y.deep_view().len() == y@.len());
    }
    if i == y.len() {
        false
    } else if i == x.len() {
        true
    } else {
        proof {
            assert(x@[i as int].deep_view() =~= x@[i as int]@);
            assert(y@[i as int].deep_view() =~= y@[i as int]@);
            assert(x.deep_view().skip(i as int)[0] == x@[i as int]@);
            assert(y.deep_view().skip(i as int)[0] == y@[i as int]@);
            assert(x.deep_view().skip(i as int).skip(1) =~= x.deep_view().skip(i as int + 1));
            assert(y.deep_view().skip(i as int).skip(1) =~= y.deep_view().skip(i as int + 1));
        }
        if chars_eq(&x[i], &y[i]) {
            idents_lt_at(x, y, i + 1)
        } else {
            ident_lt_exec(&x[i], &y[i])
        }
    }
}

fn pre_lt_exec(a: &str, b: &str) -> (r: bool)
    ensures
        r == pre_lt(a@, b@),
{
    let ca = chars_of(a);
    let cb = chars_of(b);
    if ca.len() == 0 {
        false
    } else if cb.len() == 0 {
        true
    } else {
        let xa = split_vec(&ca, '.');
        let xb = split_vec(&cb, '.');
        proof {
            assert(xa.deep_view().skip(0) =~= xa.deep_view());
            assert(xb.deep_view().skip(0) =~= xb.deep_view());
        }
        idents_lt_at(&xa, &xb, 0)
    }
}

/// True when `a` has strictly lower semantic-version precedence than `b`.
pub fn sem_lt_exec(a: &SemVer, b: &SemVer) -> (r: bool)
    ensures
        r == sem_lt(a@, b@),
{
    if a.major != b.major {
        a.major < b.major
    } else if a.minor != b.minor {
        a.minor < b.minor
    } else if a.patch != b.patch {
        a.patch < b.patch
    } else {
        pre_lt_exec(a.pre.as_str(), b.pre.as_str())
    }
}

/// What `semver::Version::parse` returns on a given string: its parsed
/// parts on a valid semantic version, `None` otherwise.
pub uninterp spec fn parsed_version(s: Seq<char>) -> Option<SemVerV>;

/// Relies on `semver::Version::parse`: it succeeds exactly on valid
/// semantic version strings, and its result is a function of the string.
#[verifier::external_body]
pub(crate) fn parse_version(s: &str) -> (r: Option<SemVer>)
    ensures
        match r {
            Some(v) => parsed_version(s@) == Some(v@),
            None => parsed_version(s@) is None,
        },
{
    match semver::Version::parse(s) {
        Ok(v) => Some(
            SemVer {
                major: v.major,
                minor: v.minor,
                patch: v.patch,
                pre: v.pre.as_str().to_string(),
                build: v.build.as_str().to_string(),
            },
        ),
        Err(_) => None,
    }
}

/// Whether `semver::Comparator::parse` accepts the string as a version
/// requirement.
pub uninterp spec fn comparator_ok(c: Seq<char>) -> bool;

/// Relies on `semver::Comparator::parse`: it succeeds exactly on
/// well-formed version requirement strings.
#[verifier::external_body]
fn comparator_is_valid(c: &str) -> (r: bool)
    ensures
        r == comparator_ok(c@),
{
    semver::Comparator::parse(c).is_ok()
}

/// What `semver::Comparator::matches` returns for the requirement written
/// in `c` and a version with the parts of `v`: a function of the two
/// values alone.
pub uninterp spec fn comparator_matches(c: Seq<char>, v: SemVerV) -> bool;

/// Relies on `semver::Comparator::matches` on the comparator that
/// `semver::Comparator::parse` reads from `c`: deterministic in the
/// constraint string and the version's parts (build metadata is ignored
/// by matching).
#[verifier::external_body]
fn comparator_matches_version(c: &str, v: &SemVer) -> (r: bool)
    requires
        comparator_ok(c@),
    ensures
        r == comparator_matches(c@, v@),
{
    let mut ver = semver::Version::new(v.major, v.minor, v.patch);
    if let Ok(p) = semver::Prerelease::new(&v.pre) {
        ver.pre = p;
    }
    match semver::Comparator::parse(c) {
        Ok(cmp) => cmp.matches(&ver),
        Err(_) => false,
    }
}

/// The view of an optional constraint string.
pub open spec fn constraint_view(c: Option<&str>) -> Option<Seq<char>> {
    match c {
        Some(s) => Some(s@),
        None => None,
    }
}

/// An absent constraint is always well-formed.
pub open spec fn constraint_ok(c: Option<Seq<char>>) -> bool {
    match c {
        Some(cs) => comparator_ok(cs),
        None => true,
    }
}

/// Whether a version satisfies an optional constraint; an absent
/// constraint is satisfied by every version.
pub open spec fn matches_constraint(c: Option<Seq<char>>, v: SemVerV) -> bool {
    match c {
        Some(cs) => comparator_matches(cs, v),
        None => true,
    }
}

/// The parts of the candidate version string at `i`, when it is valid.
pub open spec fn ver_of(nums: Seq<Seq<char>>, i: int) -> SemVerV {
    parsed_version(nums[i])->0
}

/// True when the candidate at `i` is a valid semantic version satisfying
/// the constraint.
pub open spec fn eligible(c: Option<Seq<char>>, nums: Seq<Seq<char>>, i: int) -> bool {
    0 <= i < nums.len() && parsed_version(nums[i]) is Some && matches_constraint(c, ver_of(nums, i))
}

/// The selection among the first `n` candidates: the index of the
/// eligible candidate of highest precedence, the earliest among ties.
pub open spec fn spec_select_upto(c: Option<Seq<char>>, nums: Seq<Seq<char>>, n: int) -> Option<
    int,
>
    decreases n,
{
    if n <= 0 {
        None
    } else {
        let prev = spec_select_upto(c, nums, n - 1);
        if eligible(c, nums, n - 1) && (prev is None || sem_lt(ver_of(nums, prev->0), ver_of(
            nums,
            n - 1,
        ))) {
            Some(n - 1)
        } else {
            prev
        }
    }
}

/// The selected candidate index for a constraint and a candidate list.
pub open spec fn spec_select(c: Option<Seq<char>>, nums: Seq<Seq<char>>) -> Option<int> {
    spec_select_upto(c, nums, nums.len() as int)
}

proof fn lemma_select_upto_max(c: Option<Seq<char>>, nums: Seq<Seq<char>>, n: int)
    requires
        0 <= n <= nums.len(),
    ensures
        match spec_select_upto(c, nums, n) {
            Some(i) => 0 <= i < n && eligible(c, nums, i) && forall|j: int|
                0 <= j < n && eligible(c, nums, j) ==> !sem_lt(
                    ver_of(nums, i),
                    #[trigger] ver_of(nums, j),
                ),
            None => forall|j: int| 0 <= j < n ==> !eligible(c, nums, j),
        },
    decreases n,
{
    if n > 0 {
        lemma_select_upto_max(c, nums, n - 1);
        let prev = spec_select_upto(c, nums, n - 1);
        let i = n - 1;
        if eligible(c, nums, i) && (prev is None || sem_lt(ver_of(nums, prev->0), ver_of(
            nums,
            i,
        ))) {
            assert forall|j: int| 0 <= j < n && eligible(c, nums, j) implies !sem_lt(
                ver_of(nums, i),
                #[trigger] ver_of(nums, j),
            ) by {
                if j < n - 1 {
                    if sem_lt(ver_of(nums, i), ver_of(nums, j)) {
                        let p = prev->0;
                        lemma_sem_lt_trans(ver_of(nums, p), ver_of(nums, i), ver_of(nums, j));
                    }
                } else {
                    if sem_lt(ver_of(nums, i), ver_of(nums, i)) {
                        lemma_sem_lt_asym(ver_of(nums, i), ver_of(nums, i));
                    }
                }
            }
        }
    }
}

/// When the matcher selects a candidate, that candidate is a valid
/// version satisfying the constraint, and no eligible candidate of
/// strictly higher precedence exists anywhere in the list; when it
/// selects none, no candidate is eligible at all.
pub proof fn lemma_select_max(c: Option<Seq<char>>, nums: Seq<Seq<char>>)
    ensures
        match spec_select(c, nums) {
            Some(i) => 0 <= i < nums.len() && eligible(c, nums, i) && forall|j: int|
                eligible(c, nums, j) ==> !sem_lt(ver_of(nums, i), #[trigger] ver_of(nums, j)),
            None => forall|j: int| !eligible(c, nums, j),
        },
{
    lemma_select_upto_max(c, nums, nums.len() as int);
}

/// A candidate whose version string is not a valid semantic version is
/// silently excluded: it is never selected, and the matcher comes up
/// empty only when no candidate at all is eligible, so an invalid entry
/// never turns the match into a failure.
pub proof fn lemma_select_skips_invalid(c: Option<Seq<char>>, nums: Seq<Seq<char>>)
    ensures
        spec_select(c, nums) matches Some(i) ==> parsed_version(nums[i]) is Some,
        spec_select(c, nums) is None <==> (forall|j: int| !eligible(c, nums, j)),
{
    lemma_select_max(c, nums);
    if spec_select(c, nums) is None {
    } else {
        let i = spec_select(c, nums)->0;
        assert(eligible(c, nums, i));
    }
}

/// The message of the "no matching version" failure.
pub open spec fn not_found_message(name: Seq<char>, c: Option<Seq<char>>) -> Seq<char> {
    match c {
        None => "Could not find crate "@ + name,
        Some(cs) => "Could not find version "@ + cs + " for crate "@ + name,
    }
}

/// The message of the "malformed constraint" failure.
pub open spec fn bad_constraint_message(c: Seq<char>) -> Seq<char> {
    "Could not parse version constraint "@ + c
}

fn make_not_found_message(name: &str, c: Option<&str>) -> (r: String)
    ensures
        r@ == not_found_message(name@, constraint_view(c)),
{
    let mut m = String::new();
    match c {
        None => {
            m.append("Could not find crate ");
            m.append(name);
            proof {
                assert(Seq::<char>::empty() + "Could not find crate "@ + name@
                    =~= "Could not find crate "@ + name@);
            }
        },
        Some(cs) => {
            m.append("Could not find version ");
            m.append(cs);
            m.append(" for crate ");
            m.append(name);
            proof {
                assert(Seq::<char>::empty() + "Could not find version "@ + cs@ + " for crate "@
                    + name@ =~= "Could not find version "@ + cs@ + " for crate "@ + name@);
            }
        },
    }
    m
}

/// Selects from `nums`, the raw version strings of a package's published
/// releases, the one of highest semantic-version precedence that
/// satisfies `constraint` (every candidate satisfies an absent
/// constraint). Candidates that do not parse as semantic versions are
/// skipped. Returns the index of the winner and its parsed version, a
/// `Config` error on a malformed constraint, and a `NotFound` error when
/// no candidate is eligible.
pub fn select_version(crate_name: &str, constraint: Option<&str>, nums: &Vec<String>) -> (r:
    Result<(usize, SemVer), Crate2BibError>)
    ensures
        match r {
            Ok((i, v)) => {
                &&& constraint_ok(constraint_view(constraint))
                &&& spec_select(constraint_view(constraint), nums.deep_view()) == Some(i as int)
                &&& parsed_version(nums.deep_view()[i as int]) == Some(v@)
            },
            Err(e) => match e {
                Crate2BibError::Config(m) => {
                    &&& !constraint_ok(constraint_view(constraint))
                    &&& constraint_view(constraint) matches Some(cs) && m@ == bad_constraint_message(
                        cs,
                    )
                },
                Crate2BibError::NotFound(m) => {
                    &&& constraint_ok(constraint_view(constraint))
                    &&& spec_select(constraint_view(constraint), nums.deep_view()) is None
                    &&& m@ == not_found_message(crate_name@, constraint_view(constraint))
                },
                _ => false,
            },
        },
{
    let ghost cv = constraint_view(constraint);
    let ghost nv = nums.deep_view();
    match constraint {
        Some(cs) => {
            if !comparator_is_valid(cs) {
                let mut m = String::new();
                m.append("Could not parse version constraint ");
                m.append(cs);
                proof {
                    assert(Seq::<char>::empty() + "Could not parse version constraint "@ + cs@
                        =~= bad_constraint_message(cs@));
                }
                return Err(Crate2BibError::Config(m));
            }
        },
        None => {},
    }
    let mut best: Option<(usize, SemVer)> = None;
    let mut i: usize = 0;
    while i < nums.len()
        invariant
            i <= nums@.len(),
            nv == nums.deep_view(),
            nv.len() == nums@.len(),
            cv == constraint_view(constraint),
            constraint_ok(cv),
            match best {
                None => spec_select_upto(cv, nv, i as int) is None,
                Some((bi, bv)) => {
                    &&& spec_select_upto(cv, nv, i as int) == Some(bi as int)
                    &&& bi < i
                    &&& parsed_version(nv[bi as int]) == Some(bv@)
                },
            },
        decreases nums@.len() - i,
    {
        proof {
            assert(nv[i as int] == nums@[i as int]@);
        }
        let parsed = parse_version(nums[i].as_str());
        match parsed {
            Some(v) => {
                let m = match constraint {
                    Some(cs) => comparator_matches_version(cs, &v),
                    None => true,
                };
                if m {
                    let replace = match &best {
                        None => true,
                        Some((_, bv)) => sem_lt_exec(bv, &v),
                    };
                    if replace {
                        best = Some((i, v));
                    }
                }
            },
            None => {},
        }
        i = i + 1;
    }
    match best {
        Some((bi, bv)) => Ok((bi, bv)),
        None => Err(Crate2BibError::NotFound(make_not_found_message(crate_name, constraint))),
    }
}

} // verus!
