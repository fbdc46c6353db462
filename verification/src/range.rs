//! Intervals of unaffected versions: bounds, validity, construction from
//! requirement predicates, and the overlap test.

use vstd::prelude::*;

use crate::version::{Version, VersionOrder, VersionView, version_cmp_of};

verus! {

/// One side of an interval: no constraint, or a version that the side
/// excludes or includes.
#[derive(Clone, PartialEq, Eq, Hash, Debug)]
pub enum Bound {
    Unbounded,
    Exclusive(Version),
    Inclusive(Version),
}

impl Bound {
    /// Any version carried by the bound is well-formed.
    pub open spec fn wf(&self) -> bool {
        match *self {
            Bound::Unbounded => true,
            Bound::Exclusive(v) => v.wf(),
            Bound::Inclusive(v) => v.wf(),
        }
    }

    /// The value of the carried version, if any, ignoring inclusivity.
    pub open spec fn version_view(&self) -> Option<VersionView> {
        match *self {
            Bound::Unbounded => None,
            Bound::Exclusive(v) => Some(v@),
            Bound::Inclusive(v) => Some(v@),
        }
    }

    /// Returns just the version, ignoring whether the bound is inclusive or
    /// exclusive, or nothing for an unbounded side.
    pub fn version(&self) -> (r: Option<&Version>)
        ensures
            match *self {
                Bound::Unbounded => r is None,
                Bound::Exclusive(v) => r matches Some(rv) && *rv == v,
                Bound::Inclusive(v) => r matches Some(rv) && *rv == v,
            },
    {
        match self {
            Bound::Unbounded => None,
            Bound::Exclusive(v) => Some(v),
            Bound::Inclusive(v) => Some(v),
        }
    }
}

/// The direction-aware "not beyond" comparison between a start bound `a` and
/// an end bound `b`: an unbounded side never prevents overlap; otherwise the
/// versions decide, with equality counting only when both bounds include it.
pub open spec fn le_bound(a: Bound, b: Bound) -> bool {
    match (a.version_view(), b.version_view()) {
        (Some(av), Some(bv)) => match version_cmp_of(av, bv) {
            VersionOrder::Less => true,
            VersionOrder::Greater => false,
            VersionOrder::Equal => a is Inclusive && b is Inclusive,
        },
        _ => true,
    }
}

/// A range of unaffected versions, as named by the `patched` or `unaffected`
/// statements of a security advisory. Bounds may be inclusive or exclusive.
#[derive(Clone, PartialEq, Eq, Hash, Debug)]
pub struct UnaffectedRange {
    pub start: Bound,
    pub end: Bound,
}

/// The range with both sides unbounded: every version.
pub open spec fn universal() -> UnaffectedRange {
    UnaffectedRange { start: Bound::Unbounded, end: Bound::Unbounded }
}

/// Two valid ranges overlap when neither start lies beyond the other's end.
pub open spec fn overlaps_spec(a: UnaffectedRange, b: UnaffectedRange) -> bool {
    le_bound(a.start, b.end) && le_bound(b.start, a.end)
}

impl UnaffectedRange {
    /// Both bounds carry well-formed versions.
    pub open spec fn wf(&self) -> bool {
        self.start.wf() && self.end.wf()
    }

    /// The validity invariant: either side unbounded, or start strictly below
    /// end, or both at the same version with any inclusivity pair except
    /// exclusive–exclusive, which would denote an empty interval.
    pub open spec fn valid(&self) -> bool {
        match (self.start.version_view(), self.end.version_view()) {
            (Some(sv), Some(ev)) => match version_cmp_of(sv, ev) {
                VersionOrder::Less => true,
                VersionOrder::Greater => false,
                VersionOrder::Equal => !(self.start is Exclusive && self.end is Exclusive),
            },
            _ => true,
        }
    }

    /// Decides the validity invariant.
    pub fn is_valid(&self) -> (r: bool)
        requires
            self.wf(),
        ensures
            r == self.valid(),
    {
        match (self.start.version(), self.end.version()) {
            (Some(sv), Some(ev)) => match crate::version::semver_cmp(sv, ev) {
                VersionOrder::Less => true,
                VersionOrder::Greater => false,
                VersionOrder::Equal => !(matches!(self.start, Bound::Exclusive(_)) && matches!(
                    self.end,
                    Bound::Exclusive(_),
                )),
            },
            _ => true,
        }
    }

    /// Decides the overlap predicate between two validated ranges.
    pub fn overlaps(&self, other: &UnaffectedRange) -> (r: bool)
        requires
            self.wf(),
            other.wf(),
            self.valid(),
            other.valid(),
        ensures
            r == overlaps_spec(*self, *other),
    {
        le_bound_exec(&self.start, &other.end) && le_bound_exec(&other.start, &self.end)
    }
}

fn le_bound_exec(a: &Bound, b: &Bound) -> (r: bool)
    requires
        a.wf(),
        b.wf(),
    ensures
        r == le_bound(*a, *b),
{
    match (a.version(), b.version()) {
        (Some(av), Some(bv)) => match crate::version::semver_cmp(av, bv) {
            VersionOrder::Less => true,
            VersionOrder::Greater => false,
            VersionOrder::Equal => matches!(a, Bound::Inclusive(_)) && matches!(
                b,
                Bound::Inclusive(_),
            ),
        },
        _ => true,
    }
}

/// A comparison operator of the requirement grammar.
#[derive(Clone, Copy, PartialEq, Eq, Structural, Debug)]
pub enum ComparisonOp {
    GreaterThan,
    GreaterOrEqual,
    LessThan,
    LessOrEqual,
    Equal,
}

/// One requirement predicate: a comparison operator and a version, as handed
/// over by the external requirement parser.
#[derive(Clone, PartialEq, Eq, Debug)]
pub struct Predicate {
    pub op: ComparisonOp,
    pub version: Version,
}

/// Why a predicate list was rejected during range construction.
#[derive(Clone, Copy, PartialEq, Eq, Structural, Debug)]
pub enum RangeError {
    /// More than two predicates in one requirement.
    TooManyPredicates,
    /// A second lower-bound predicate in the same requirement.
    DuplicateLowerBound,
    /// A second upper-bound predicate in the same requirement.
    DuplicateUpperBound,
    /// An exact-equality predicate, which this grammar does not convert.
    UnsupportedOperator,
    /// The constructed bounds violate the validity invariant.
    InvalidRange,
}

/// One step of range construction: the predicate's operator picks a side and
/// an inclusivity; writing into a side that is already bounded is an error,
/// and the exact-equality operator is never converted.
pub open spec fn apply_predicate(r: UnaffectedRange, p: Predicate) -> Result<
    UnaffectedRange,
    RangeError,
> {
    match p.op {
        ComparisonOp::GreaterThan => if r.start is Unbounded {
            Ok(UnaffectedRange { start: Bound::Exclusive(p.version), end: r.end })
        } else {
            Err(RangeError::DuplicateLowerBound)
        },
        ComparisonOp::GreaterOrEqual => if r.start is Unbounded {
            Ok(UnaffectedRange { start: Bound::Inclusive(p.version), end: r.end })
        } else {
            Err(RangeError::DuplicateLowerBound)
        },
        ComparisonOp::LessThan => if r.end is Unbounded {
            Ok(UnaffectedRange { start: r.start, end: Bound::Exclusive(p.version) })
        } else {
            Err(RangeError::DuplicateUpperBound)
        },
        ComparisonOp::LessOrEqual => if r.end is Unbounded {
            Ok(UnaffectedRange { start: r.start, end: Bound::Inclusive(p.version) })
        } else {
            Err(RangeError::DuplicateUpperBound)
        },
        ComparisonOp::Equal => Err(RangeError::UnsupportedOperator),
    }
}

/// Applies the predicates in order, stopping at the first error.
pub open spec fn apply_predicates(r: UnaffectedRange, preds: Seq<Predicate>) -> Result<
    UnaffectedRange,
    RangeError,
>
    decreases preds.len(),
{
    if preds.len() == 0 {
        Ok(r)
    } else {
        match apply_predicate(r, preds[0]) {
            Ok(r2) => apply_predicates(r2, preds.skip(1)),
            Err(e) => Err(e),
        }
    }
}

/// What range construction returns for a whole predicate list: at most two
/// predicates, applied in order onto the universal range, and the result must
/// satisfy the validity invariant.
pub open spec fn range_from_predicates(preds: Seq<Predicate>) -> Result<
    UnaffectedRange,
    RangeError,
> {
    if preds.len() > 2 {
        Err(RangeError::TooManyPredicates)
    } else {
        match apply_predicates(universal(), preds) {
            Ok(r) => if r.valid() {
                Ok(r)
            } else {
                Err(RangeError::InvalidRange)
            },
            Err(e) => Err(e),
        }
    }
}

impl UnaffectedRange {
    /// Builds a validated range from an ordered predicate list, rejecting
    /// malformed requirements instead of repairing them.
    pub fn from_predicates(preds: Vec<Predicate>) -> (r: Result<UnaffectedRange, RangeError>)
        requires
            forall|i: int| 0 <= i < preds@.len() ==> (#[trigger] preds@[i]).version.wf(),
        ensures
            r == range_from_predicates(preds@),
            r matches Ok(range) ==> range.wf() && range.valid(),
    {
        let ghost all: Seq<Predicate> = preds@;
        if preds.len() > 2 {
            return Err(RangeError::TooManyPredicates);
        }
        let mut work: Vec<Predicate> = preds;
        let mut cur = UnaffectedRange { start: Bound::Unbounded, end: Bound::Unbounded };
        while work.len() > 0
            invariant
                all == preds@,
                all.len() <= 2,
                cur.wf(),
                forall|i: int| 0 <= i < work@.len() ==> (#[trigger] work@[i]).version.wf(),
                apply_predicates(cur, work@) == apply_predicates(universal(), all),
            decreases work@.len(),
        {
            let ghost prev = work@;
            let p = work.remove(0);
            proof {
                assert(work@ =~= prev.skip(1));
                assert(apply_predicates(cur, prev) == match apply_predicate(cur, prev[0]) {
                    Ok(r2) => apply_predicates(r2, prev.skip(1)),
                    Err(e) => Err(e),
                });
            }
            let Predicate { op, version } = p;
            match op {
                ComparisonOp::GreaterThan => {
                    match &cur.start {
                        Bound::Unbounded => {
                            cur.start = Bound::Exclusive(version);
                        },
                        _ => {
                            return Err(RangeError::DuplicateLowerBound);
                        },
                    }
                },
                ComparisonOp::GreaterOrEqual => {
                    match &cur.start {
                        Bound::Unbounded => {
                            cur.start = Bound::Inclusive(version);
                        },
                        _ => {
                            return Err(RangeError::DuplicateLowerBound);
                        },
                    }
                },
                ComparisonOp::LessThan => {
                    match &cur.end {
                        Bound::Unbounded => {
                            cur.end = Bound::Exclusive(version);
                        },
                        _ => {
                            return Err(RangeError::DuplicateUpperBound);
                        },
                    }
                },
                ComparisonOp::LessOrEqual => {
                    match &cur.end {
                        Bound::Unbounded => {
                            cur.end = Bound::Inclusive(version);
                        },
                        _ => {
                            return Err(RangeError::DuplicateUpperBound);
                        },
                    }
                },
                ComparisonOp::Equal => {
                    return Err(RangeError::UnsupportedOperator);
                },
            }
        }
        if cur.is_valid() {
            Ok(cur)
        } else {
            Err(RangeError::InvalidRange)
        }
    }
}

/// Law: a list holding one predicate that is not exact equality always
/// converts; the resulting range is valid, and the side the predicate does
/// not constrain stays unbounded.
pub proof fn lemma_single_predicate(p: Predicate)
    requires
        !(p.op is Equal),
    ensures
        range_from_predicates(seq![p]) is Ok,
        range_from_predicates(seq![p])->Ok_0.valid(),
        p.op is GreaterThan || p.op is GreaterOrEqual ==> range_from_predicates(
            seq![p],
        )->Ok_0.end is Unbounded,
        p.op is LessThan || p.op is LessOrEqual ==> range_from_predicates(
            seq![p],
        )->Ok_0.start is Unbounded,
{
    let s = seq![p];
    assert(s.skip(1) =~= Seq::<Predicate>::empty());
    let r1 = apply_predicate(universal(), p);
    assert(apply_predicates(universal(), s) == apply_predicates(r1->Ok_0, s.skip(1)));
}

/// Law: a list of three or more predicates is always rejected as having too
/// many predicates.
pub proof fn lemma_too_many_predicates(preds: Seq<Predicate>)
    requires
        preds.len() >= 3,
    ensures
        range_from_predicates(preds) == Err::<UnaffectedRange, RangeError>(
            RangeError::TooManyPredicates,
        ),
{
}

/// Law: two lower-bound predicates in one list are always rejected as a
/// duplicate lower bound.
pub proof fn lemma_duplicate_lower_bound(p0: Predicate, p1: Predicate)
    requires
        p0.op is GreaterThan || p0.op is GreaterOrEqual,
        p1.op is GreaterThan || p1.op is GreaterOrEqual,
    ensures
        range_from_predicates(seq![p0, p1]) == Err::<UnaffectedRange, RangeError>(
            RangeError::DuplicateLowerBound,
        ),
{
    let s = seq![p0, p1];
    let r1 = apply_predicate(universal(), p0);
    assert(s.skip(1) =~= seq![p1]);
    assert(s.skip(1).skip(1) =~= Seq::<Predicate>::empty());
    assert(apply_predicates(universal(), s) == apply_predicates(r1->Ok_0, s.skip(1)));
    assert(s.skip(1)[0] == p1);
}

/// Law: two upper-bound predicates in one list are always rejected as a
/// duplicate upper bound.
pub proof fn lemma_duplicate_upper_bound(p0: Predicate, p1: Predicate)
    requires
        p0.op is LessThan || p0.op is LessOrEqual,
        p1.op is LessThan || p1.op is LessOrEqual,
    ensures
        range_from_predicates(seq![p0, p1]) == Err::<UnaffectedRange, RangeError>(
            RangeError::DuplicateUpperBound,
        ),
{
    let s = seq![p0, p1];
    let r1 = apply_predicate(universal(), p0);
    assert(s.skip(1) =~= seq![p1]);
    assert(s.skip(1).skip(1) =~= Seq::<Predicate>::empty());
    assert(apply_predicates(universal(), s) == apply_predicates(r1->Ok_0, s.skip(1)));
    assert(s.skip(1)[0] == p1);
}

/// Law: overlap is symmetric for valid ranges.
pub proof fn lemma_overlaps_symmetric(a: UnaffectedRange, b: UnaffectedRange)
    requires
        a.valid(),
        b.valid(),
    ensures
        overlaps_spec(a, b) == overlaps_spec(b, a),
{
}

/// Law: an unbounded start can never prevent overlap on its side, so the
/// overlap test reduces to the comparison on the other side.
pub proof fn lemma_unbounded_start(a: UnaffectedRange, b: UnaffectedRange)
    requires
        a.valid(),
        b.valid(),
        a.start is Unbounded,
    ensures
        overlaps_spec(a, b) == le_bound(b.start, a.end),
{
}

/// Law: an unbounded end can never prevent overlap on its side, so the
/// overlap test reduces to the comparison on the other side.
pub proof fn lemma_unbounded_end(a: UnaffectedRange, b: UnaffectedRange)
    requires
        a.valid(),
        b.valid(),
        a.end is Unbounded,
    ensures
        overlaps_spec(a, b) == le_bound(a.start, b.end),
{
}

impl Default for UnaffectedRange {
    /// The default range is the universal one: both sides unbounded.
    fn default() -> (r: Self)
        ensures
            r == universal(),
    {
        UnaffectedRange { start: Bound::Unbounded, end: Bound::Unbounded }
    }
}

} // verus!
