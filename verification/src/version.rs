//! Version comparators: the plain lexicographic one and the one of the
//! `version_compare` crate, and the total-preorder laws they are judged by.

use std::cmp::Ordering;
use vstd::prelude::*;
use crate::text::chars_of;

verus! {

/// The outcome of comparing two versions.
#[derive(PartialEq, Eq, Structural, Clone, Copy, Debug)]
pub enum Comparison {
    Less,
    Equal,
    Greater,
}

impl Comparison {
    /// The outcome seen from the other side.
    pub open spec fn flip(self) -> Comparison {
        match self {
            Comparison::Less => Comparison::Greater,
            Comparison::Equal => Comparison::Equal,
            Comparison::Greater => Comparison::Less,
        }
    }

    /// `Less` or `Equal`.
    pub open spec fn is_le(self) -> bool {
        self is Less || self is Equal
    }
}

/// The lexicographic order of two character sequences (a proper prefix comes first).
pub open spec fn lexicographic(a: Seq<char>, b: Seq<char>) -> Comparison
    decreases a.len(),
{
    if a.len() == 0 {
        if b.len() == 0 {
            Comparison::Equal
        } else {
            Comparison::Less
        }
    } else if b.len() == 0 {
        Comparison::Greater
    } else if a[0] < b[0] {
        Comparison::Less
    } else if b[0] < a[0] {
        Comparison::Greater
    } else {
        lexicographic(a.drop_first(), b.drop_first())
    }
}

proof fn lemma_lexicographic_step(a: Seq<char>, b: Seq<char>, i: int)
    requires
        0 <= i < a.len(),
        i < b.len(),
        a[i] == b[i],
    ensures
        lexicographic(a.skip(i), b.skip(i)) == lexicographic(a.skip(i + 1), b.skip(i + 1)),
{
    assert(a.skip(i).drop_first() =~= a.skip(i + 1));
    assert(b.skip(i).drop_first() =~= b.skip(i + 1));
}

/// Compares two strings character by character.
pub fn lexicographic_order(a: &str, b: &str) -> (r: Comparison)
    ensures
        r == lexicographic(a@, b@),
{
    let va = chars_of(a);
    let vb = chars_of(b);
    let mut i: usize = 0;
    assert(a@.skip(0) =~= a@);
    assert(b@.skip(0) =~= b@);
    loop
        invariant
            va@ == a@,
            vb@ == b@,
            i <= va@.len(),
            i <= vb@.len(),
            lexicographic(a@, b@) == lexicographic(a@.skip(i as int), b@.skip(i as int)),
        decreases va@.len() - i,
    {
        if i == va.len() {
            if i == vb.len() {
                return Comparison::Equal;
            } else {
                return Comparison::Less;
            }
        } else if i == vb.len() {
            return Comparison::Greater;
        }
        let ca = va[i];
        let cb = vb[i];
        if ca < cb {
            return Comparison::Less;
        } else if cb < ca {
            return Comparison::Greater;
        }
        proof {
            lemma_lexicographic_step(a@, b@, i as int);
        }
        i = i + 1;
    }
}

/// The standard ordering for a comparison outcome.
pub open spec fn ordering_of(c: Comparison) -> Ordering {
    match c {
        Comparison::Less => Ordering::Less,
        Comparison::Equal => Ordering::Equal,
        Comparison::Greater => Ordering::Greater,
    }
}

fn to_ordering(c: Comparison) -> (r: Ordering)
    ensures
        r == ordering_of(c),
{
    match c {
        Comparison::Less => Ordering::Less,
        Comparison::Equal => Ordering::Equal,
        Comparison::Greater => Ordering::Greater,
    }
}

/// Default comparator for recipe versions: plain string order. Versions
/// should have parts of a fixed width for it to order them as intended.
pub fn simple_compare(a: &str, b: &str) -> (r: Ordering)
    ensures
        r == ordering_of(lexicographic(a@, b@)),
{
    to_ordering(lexicographic_order(a, b))
}

/// The relations that `version_compare::compare` can report.
#[derive(PartialEq, Eq, Structural, Clone, Copy, Debug)]
pub enum SemverRelation {
    Eq,
    Ne,
    Lt,
    Le,
    Ge,
    Gt,
}

/// Whether `version_compare::Version::from` accepts the string.
pub uninterp spec fn semver_valid(version: Seq<char>) -> bool;

/// What `version_compare::compare` reports for two accepted strings.
pub uninterp spec fn semver_relation(a: Seq<char>, b: Seq<char>) -> SemverRelation;

/// Calls `version_compare::Version::from` and reports whether it parsed the
/// string. Trusted: the answer is `semver_valid` of the string.
#[verifier::external_body]
fn semver_parses(version: &str) -> (r: bool)
    ensures
        r == semver_valid(version@),
{
    match version_compare::Version::from(version) {
        Some(_) => true,
        None => false,
    }
}

/// Calls `version_compare::compare`. Trusted: it fails exactly when one of the
/// strings does not parse (its source parses both with `Version::from`), and
/// otherwise reports `semver_relation`, which its documentation says is one of
/// `Eq`, `Lt`, `Gt`.
#[verifier::external_body]
fn semver_compare(a: &str, b: &str) -> (r: Option<SemverRelation>)
    ensures
        r is Some <==> (semver_valid(a@) && semver_valid(b@)),
        r matches Some(rel) ==> rel == semver_relation(a@, b@),
        r matches Some(rel) ==> (rel is Eq || rel is Lt || rel is Gt),
{
    match version_compare::compare(a, b) {
        Ok(version_compare::Cmp::Eq) => Some(SemverRelation::Eq),
        Ok(version_compare::Cmp::Ne) => Some(SemverRelation::Ne),
        Ok(version_compare::Cmp::Lt) => Some(SemverRelation::Lt),
        Ok(version_compare::Cmp::Le) => Some(SemverRelation::Le),
        Ok(version_compare::Cmp::Ge) => Some(SemverRelation::Ge),
        Ok(version_compare::Cmp::Gt) => Some(SemverRelation::Gt),
        Err(_) => None,
    }
}

/// The order of two versions under `version_compare`: parsed versions by
/// their relation, a parsed version after an unparsable one, two unparsable
/// versions equal.
pub open spec fn semver_order(a: Seq<char>, b: Seq<char>) -> Comparison {
    if semver_valid(a) && semver_valid(b) {
        match semver_relation(a, b) {
            SemverRelation::Lt | SemverRelation::Le => Comparison::Less,
            SemverRelation::Eq => Comparison::Equal,
            _ => Comparison::Greater,
        }
    } else if semver_valid(a) {
        Comparison::Greater
    } else if semver_valid(b) {
        Comparison::Less
    } else {
        Comparison::Equal
    }
}

/// Compares versions with `version_compare`.
pub fn semver_order_of(a: &str, b: &str) -> (r: Comparison)
    ensures
        r == semver_order(a@, b@),
{
    let va = semver_parses(a);
    let vb = semver_parses(b);
    if va && vb {
        match semver_compare(a, b) {
            Some(SemverRelation::Lt) | Some(SemverRelation::Le) => Comparison::Less,
            Some(SemverRelation::Eq) => Comparison::Equal,
            Some(_) => Comparison::Greater,
            None => Comparison::Equal,
        }
    } else if va {
        Comparison::Greater
    } else if vb {
        Comparison::Less
    } else {
        Comparison::Equal
    }
}

/// Compares two versions with the `version_compare` crate, which accepts
/// semver-like versions: 1.0.0, 5.0.0, 5.3.0, 10.2.3, 10.10.1 keep their order.
pub fn version_compare(a: &str, b: &str) -> (r: Ordering)
    ensures
        r == ordering_of(semver_order(a@, b@)),
{
    to_ordering(semver_order_of(a, b))
}

/// The comparators a migrator can order versions with.
#[derive(PartialEq, Eq, Structural, Clone, Copy, Debug)]
pub enum VersionComparator {
    /// `simple_compare`: plain string order.
    Simple,
    /// `version_compare`: the order of the `version_compare` crate.
    Semver,
}

impl VersionComparator {
    /// How the comparator orders `a` against `b`.
    pub open spec fn relation(self, a: Seq<char>, b: Seq<char>) -> Comparison {
        match self {
            VersionComparator::Simple => lexicographic(a, b),
            VersionComparator::Semver => semver_order(a, b),
        }
    }

    /// Compares two versions.
    pub fn order(&self, a: &str, b: &str) -> (r: Comparison)
        ensures
            r == self.relation(a@, b@),
    {
        match self {
            VersionComparator::Simple => lexicographic_order(a, b),
            VersionComparator::Semver => semver_order_of(a, b),
        }
    }

    /// Compares two versions, as a standard ordering.
    pub fn compare(&self, a: &str, b: &str) -> (r: Ordering)
        ensures
            r == ordering_of(self.relation(a@, b@)),
    {
        to_ordering(self.order(a, b))
    }

    /// The comparator is a total preorder: every pair is related one way,
    /// `Equal` both ways, and "not after" is transitive.
    pub open spec fn is_total_preorder(self) -> bool {
        &&& forall|a: Seq<char>, b: Seq<char>|
            #[trigger] self.relation(a, b) == self.relation(b, a).flip()
        &&& forall|a: Seq<char>| #[trigger] self.relation(a, a) is Equal
        &&& forall|a: Seq<char>, b: Seq<char>, c: Seq<char>|
            #![trigger self.relation(a, b), self.relation(b, c), self.relation(a, c)]
            self.relation(a, b).is_le() && self.relation(b, c).is_le() ==> self.relation(
                a,
                c,
            ).is_le()
    }
}

proof fn lemma_lexicographic_flip(a: Seq<char>, b: Seq<char>)
    ensures
        lexicographic(a, b) == lexicographic(b, a).flip(),
    decreases a.len(),
{
    if a.len() > 0 && b.len() > 0 && a[0] == b[0] {
        lemma_lexicographic_flip(a.drop_first(), b.drop_first());
    }
}

proof fn lemma_lexicographic_equal(a: Seq<char>, b: Seq<char>)
    ensures
        (lexicographic(a, b) is Equal) <==> a == b,
    decreases a.len(),
{
    if a.len() > 0 && b.len() > 0 && a[0] == b[0] {
        lemma_lexicographic_equal(a.drop_first(), b.drop_first());
        if a.drop_first() == b.drop_first() {
            assert(a =~= seq![a[0]] + a.drop_first());
            assert(b =~= seq![b[0]] + b.drop_first());
        }
        if a == b {
            assert(a.drop_first() =~= b.drop_first());
        }
    } else if a.len() == 0 && b.len() == 0 {
        assert(a =~= b);
    }
}

proof fn lemma_lexicographic_transitive(a: Seq<char>, b: Seq<char>, c: Seq<char>)
    requires
        lexicographic(a, b).is_le(),
        lexicographic(b, c).is_le(),
    ensures
        lexicographic(a, c).is_le(),
    decreases a.len(),
{
    if a.len() > 0 && b.len() > 0 && c.len() > 0 && a[0] == b[0] && b[0] == c[0] {
        lemma_lexicographic_transitive(a.drop_first(), b.drop_first(), c.drop_first());
    }
}

/// Plain string order is a total preorder, and it calls two versions equal
/// only when they are the same string.
pub proof fn simple_compare_is_total_order()
    ensures
        VersionComparator::Simple.is_total_preorder(),
        forall|a: Seq<char>, b: Seq<char>|
            (#[trigger] VersionComparator::Simple.relation(a, b) is Equal) <==> a == b,
{
    assert forall|a: Seq<char>, b: Seq<char>|
        #[trigger] VersionComparator::Simple.relation(a, b) == VersionComparator::Simple.relation(
            b,
            a,
        ).flip() by {
        lemma_lexicographic_flip(a, b);
    }
    assert forall|a: Seq<char>| #[trigger] VersionComparator::Simple.relation(a, a) is Equal by {
        lemma_lexicographic_equal(a, a);
    }
    assert forall|a: Seq<char>, b: Seq<char>, c: Seq<char>|
        #[trigger] VersionComparator::Simple.relation(a, b).is_le()
            && #[trigger] VersionComparator::Simple.relation(b, c).is_le() implies #[trigger] VersionComparator::Simple.relation(a, c).is_le() by {
        lemma_lexicographic_transitive(a, b, c);
    }
    assert forall|a: Seq<char>, b: Seq<char>|
        (#[trigger] VersionComparator::Simple.relation(a, b) is Equal) <==> a == b by {
        lemma_lexicographic_equal(a, b);
    }
}

/// In a total preorder, a comparison seen from the other side is flipped.
pub proof fn lemma_relation_flip(c: VersionComparator, a: Seq<char>, b: Seq<char>)
    requires
        c.is_total_preorder(),
    ensures
        c.relation(a, b) == c.relation(b, a).flip(),
{
}

/// In a total preorder, "not after" is transitive.
pub proof fn lemma_relation_le_trans(c: VersionComparator, a: Seq<char>, b: Seq<char>, x: Seq<char>)
    requires
        c.is_total_preorder(),
        c.relation(a, b).is_le(),
        c.relation(b, x).is_le(),
    ensures
        c.relation(a, x).is_le(),
{
    assert(c.relation(a, b).is_le() && c.relation(b, x).is_le() ==> c.relation(a, x).is_le());
}

/// In a total preorder, "before" followed by "not after" is "before", and
/// "not after" followed by "before" is "before".
pub proof fn lemma_relation_less_trans(c: VersionComparator, a: Seq<char>, b: Seq<char>, x: Seq<char>)
    requires
        c.is_total_preorder(),
        (c.relation(a, b) is Less && c.relation(b, x).is_le()) || (c.relation(a, b).is_le()
            && c.relation(b, x) is Less),
    ensures
        c.relation(a, x) is Less,
{
    lemma_relation_le_trans(c, a, b, x);
    lemma_relation_flip(c, a, b);
    lemma_relation_flip(c, b, x);
    lemma_relation_flip(c, a, x);
    if c.relation(a, x) is Equal {
        if c.relation(a, b) is Less {
            lemma_relation_le_trans(c, b, x, a);
        } else {
            lemma_relation_le_trans(c, x, a, b);
        }
    }
}

/// In a total preorder, two versions that compare equal compare alike with
/// every other version.
pub proof fn lemma_relation_equal_subst(c: VersionComparator, a: Seq<char>, b: Seq<char>, x: Seq<char>)
    requires
        c.is_total_preorder(),
        c.relation(a, b) is Equal,
    ensures
        c.relation(x, a) == c.relation(x, b),
        c.relation(a, x) == c.relation(b, x),
{
    lemma_relation_flip(c, a, b);
    lemma_relation_flip(c, x, a);
    lemma_relation_flip(c, x, b);
    lemma_relation_flip(c, a, x);
    lemma_relation_flip(c, b, x);
    if c.relation(x, a).is_le() {
        lemma_relation_le_trans(c, x, a, b);
    }
    if c.relation(x, b).is_le() {
        lemma_relation_le_trans(c, x, b, a);
    }
    if c.relation(a, x).is_le() {
        lemma_relation_le_trans(c, b, a, x);
    }
    if c.relation(b, x).is_le() {
        lemma_relation_le_trans(c, a, b, x);
    }
}

} // verus!
