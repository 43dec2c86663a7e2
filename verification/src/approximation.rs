//! Tolerance-bounded curve approximation with an identity-keyed cache.
//!
//! A curve is approximated over a half-open range `[start, end)` of its
//! local coordinate. The boundaries of the range are never included in the
//! produced sequence: the caller, who knows the boundary, inserts the exact
//! bounding positions itself. For a line no interior samples are needed; a
//! circle is subdivided finely enough for the chords to stay within the
//! tolerance.
//!
//! The cache is keyed by the identity of the global curve, so a curve
//! shared by several local contexts — a seam edge of two adjacent faces —
//! is sampled exactly once, and both contexts receive identical point
//! sequences.

use vstd::prelude::*;
use crate::math::{
    Point2, Point3, FULL_TURN, COORD_MAX, spec_normsq3, spec_isqrt, is_isqrt,
    isqrt64, isqrt128, normsq3, lemma_isqrt_is_spec, lemma_isqrt_monotone, p3_within,
};
use crate::curves::{
    Curve, Circle, SurfacePath, curve_wf, path_wf, curve_param_ok, path_param_ok,
    spec_circle_point, spec_curve_point, spec_path_point, curve_point, path_point,
};

verus! {

/// A tolerance value was not positive.
#[derive(Clone, Copy, Debug, PartialEq, Eq, Structural)]
pub struct InvalidTolerance;

/// The maximum allowed deviation of an approximation from the true
/// geometry, in ticks.
#[derive(Clone, Copy, Debug, PartialEq, Eq, Structural)]
pub struct Tolerance {
    pub ticks: i64,
}

pub open spec fn tolerance_wf(t: Tolerance) -> bool {
    0 < t.ticks
}

impl Tolerance {
    /// Construct a tolerance; a tolerance of zero or less is rejected.
    pub fn from_ticks(ticks: i64) -> (r: Result<Tolerance, InvalidTolerance>)
        ensures
            r is Ok <==> ticks > 0,
            r is Ok ==> r->Ok_0 == (Tolerance { ticks }),
    {
        if ticks > 0 {
            Ok(Tolerance { ticks })
        } else {
            Err(InvalidTolerance)
        }
    }
}

/// A half-open range `[start, end)` of a curve's local coordinate.
#[derive(Clone, Copy, Debug, PartialEq, Eq, Structural)]
pub struct RangeOnCurve {
    pub start: i64,
    pub end: i64,
}

/// A sample of a curve: its local coordinate on the curve and its position
/// in the global model space.
#[derive(Clone, Copy, Debug, PartialEq, Eq, Structural)]
pub struct ApproxPoint1 {
    pub local: i64,
    pub global: Point3,
}

/// The source of an approximation point: the identity of the curve it was
/// sampled from and the local coordinate it was sampled at.
#[derive(Clone, Copy, Debug, PartialEq, Eq, Structural)]
pub struct ApproxSource {
    pub curve_id: u64,
    pub param: i64,
}

/// A sample of a curve embedded in a surface: its surface-local position,
/// its position in the global model space, and optionally its source.
#[derive(Clone, Copy, Debug, PartialEq, Eq)]
pub struct ApproxPoint2 {
    pub local: Point2,
    pub global: Point3,
    pub source: Option<ApproxSource>,
}

/// The model-space identity of a curve. Several local curves — one per
/// adjacent face — may share one global curve; the approximation cache is
/// keyed by this identity.
#[derive(Clone, Copy, Debug, PartialEq, Eq, Structural)]
pub struct GlobalCurve {
    /// The identity: stable and unique per distinct global curve.
    pub id: u64,
    /// The model-space path of the curve.
    pub path: Curve,
}

/// A curve embedded in a surface: its surface-local path and the global
/// curve it is a local form of.
#[derive(Clone, Copy, Debug, PartialEq, Eq, Structural)]
pub struct LocalCurve {
    pub path: SurfacePath,
    pub global_form: GlobalCurve,
}

/// The local path and the global path are the same kind of carrier.
pub open spec fn local_curve_wf(c: LocalCurve) -> bool {
    &&& path_wf(c.path)
    &&& curve_wf(c.global_form.path)
    &&& match (c.path, c.global_form.path) {
        (SurfacePath::Line(_), Curve::Line(_)) => true,
        (SurfacePath::Circle(_), Curve::Circle(_)) => true,
        _ => false,
    }
}

/// An approximation of a global curve over a range.
#[derive(Clone, Debug, PartialEq, Eq)]
pub struct GlobalPathApprox {
    /// The points that approximate the curve.
    pub points: Vec<ApproxPoint1>,
}

/// An approximation of a surface-embedded curve.
#[derive(Debug, PartialEq, Eq)]
pub struct CurveApprox {
    /// The points that approximate the curve.
    pub points: Vec<ApproxPoint2>,
}

impl CurveApprox {
    /// Create an empty instance of `CurveApprox`.
    pub fn empty() -> (r: CurveApprox)
        ensures
            r.points@ == Seq::<ApproxPoint2>::empty(),
    {
        CurveApprox { points: Vec::new() }
    }

    /// Add points to the approximation.
    pub fn with_points(self, points: Vec<ApproxPoint2>) -> (r: CurveApprox)
        ensures
            r.points@ == self.points@ + points@,
    {
        let mut r = self;
        let mut p = points;
        r.points.append(&mut p);
        r
    }
}

/// The number of subdivisions of a circle range: enough that the sagitta
/// of each chord stays within the tolerance, never more than one per tick
/// of range, and at least three for a non-empty range.
pub open spec fn spec_circle_count(rsq: int, tol: int, delta: int) -> int {
    if delta == 0 {
        0
    } else {
        let wanted = 3 + spec_isqrt(5 * spec_isqrt(rsq) / tol);
        if wanted <= delta {
            wanted
        } else {
            delta
        }
    }
}

/// The local coordinate of sample `i` out of `n - 1` interior samples of
/// the range `[start, start + delta)`.
pub open spec fn spec_param_at(start: int, delta: int, n: int, i: int) -> int {
    start + ((i + 1) * delta) / n
}

/// The approximation of a global curve over `[start, end)`: no interior
/// samples for a line, the subdivision samples for a circle, each carrying
/// its exact curve point.
pub open spec fn spec_global_points(k: Curve, start: int, end: int, tol: int)
    -> Seq<ApproxPoint1> {
    match k {
        Curve::Line(_) => Seq::<ApproxPoint1>::empty(),
        Curve::Circle(c) => {
            let n = spec_circle_count(spec_normsq3(c.a), tol, end - start);
            if n == 0 {
                Seq::<ApproxPoint1>::empty()
            } else {
                Seq::new((n - 1) as nat, |i: int| {
                    let t = spec_param_at(start, end - start, n, i);
                    let p = spec_circle_point(c, t);
                    ApproxPoint1 {
                        local: t as i64,
                        global: Point3 { x: p.0 as i64, y: p.1 as i64, z: p.2 as i64 },
                    }
                })
            }
        }
    }
}

/// The range of a curve's local coordinate a caller may ask to
/// approximate.
pub open spec fn range_ok(k: Curve, r: RangeOnCurve) -> bool {
    &&& r.start <= r.end
    &&& curve_param_ok(k, r.start as int)
    &&& curve_param_ok(k, r.end as int)
}

/// Compute the subdivision count for a circle range.
fn circle_count(c: &Circle, tol: &Tolerance, delta: i64) -> (n: u64)
    requires
        crate::curves::circle_wf(*c),
        tolerance_wf(*tol),
        0 <= delta <= FULL_TURN,
    ensures
        n == spec_circle_count(spec_normsq3(c.a), tol.ticks as int, delta as int),
        delta > 0 ==> 1 <= n <= delta,
        delta == 0 ==> n == 0,
{
    if delta == 0 {
        return 0;
    }
    let rsq = normsq3(c.a);
    let r = isqrt128(rsq as u128);
    proof {
        lemma_isqrt_is_spec(rsq as int, r as int);
        assert(rsq <= 3 * ((COORD_MAX as int) * (COORD_MAX as int))) by (nonlinear_arith)
            requires
                crate::curves::circle_wf(*c),
                rsq == spec_normsq3(c.a),
        ;
        assert(2_000_000_000_000int * 2_000_000_000_000int
            > 3 * ((COORD_MAX as int) * (COORD_MAX as int))) by (nonlinear_arith);
        lemma_isqrt_monotone(rsq as int, r as int,
            2_000_000_000_000int * 2_000_000_000_000int - 1, 1_999_999_999_999int);
        assert(is_isqrt(2_000_000_000_000int * 2_000_000_000_000int - 1, 1_999_999_999_999int))
            by (nonlinear_arith);
    }
    let q: u64 = (5 * r) / (tol.ticks as u64);
    let s = isqrt64(q);
    proof {
        lemma_isqrt_is_spec(q as int, s as int);
        lemma_isqrt_monotone(q as int, s as int, u64::MAX as int, 4_294_967_295int);
        assert(is_isqrt(u64::MAX as int, 4_294_967_295int)) by (nonlinear_arith);
    }
    let wanted: u64 = 3 + s;
    if wanted <= delta as u64 {
        wanted
    } else {
        delta as u64
    }
}

/// The interior sample coordinates of the range `[start, start + delta)`
/// under `n` subdivisions: strictly between the boundaries.
fn sample_params(start: i64, delta: i64, n: u64) -> (v: Vec<i64>)
    requires
        0 <= start,
        1 <= n <= delta,
        start + delta <= FULL_TURN,
    ensures
        v@.len() == n - 1,
        forall|i: int| 0 <= i < n - 1 ==>
            #[trigger] v@[i] == spec_param_at(start as int, delta as int, n as int, i),
        forall|i: int| 0 <= i < n - 1 ==> start < #[trigger] v@[i] < start + delta,
    decreases n,
{
    let mut v: Vec<i64> = Vec::new();
    let mut k: u64 = 1;
    while k < n
        invariant
            1 <= k <= n <= delta,
            0 <= start,
            start + delta <= FULL_TURN,
            v@.len() == k - 1,
            forall|i: int| 0 <= i < k - 1 ==>
                #[trigger] v@[i] == spec_param_at(start as int, delta as int, n as int, i),
            forall|i: int| 0 <= i < k - 1 ==> start < #[trigger] v@[i] < start + delta,
        decreases n - k,
    {
        proof {
            lemma_param_in_interior(delta as int, n as int, k as int);
            assert((k as int) * (delta as int) <= 62_831_852int * 62_831_852int)
                by (nonlinear_arith)
                requires
                    0 < k <= delta,
                    0 < delta <= 62_831_852,
            ;
        }
        let num: u64 = k * (delta as u64);
        let off: u64 = num / n;
        let t: i64 = start + off as i64;
        v.push(t);
        k = k + 1;
    }
    v
}

/// Interior samples stay strictly between the boundaries: with at most one
/// subdivision per tick of range, the `k`-th offset is at least one and at
/// most `delta - 1`.
proof fn lemma_param_in_interior(delta: int, n: int, k: int)
    requires
        1 <= n <= delta,
        1 <= k <= n - 1,
    ensures
        1 <= (k * delta) / n <= delta - 1,
{
    assert(k * delta >= delta) by (nonlinear_arith)
        requires
            k >= 1,
            delta >= 0,
    ;
    vstd::arithmetic::div_mod::lemma_div_is_ordered(delta, k * delta, n);
    vstd::arithmetic::div_mod::lemma_div_is_ordered(n, delta, n);
    vstd::arithmetic::div_mod::lemma_div_by_self(n);
    assert(k * delta <= (n - 1) * delta) by (nonlinear_arith)
        requires
            k <= n - 1,
            delta >= 0,
    ;
    vstd::arithmetic::div_mod::lemma_div_is_ordered(k * delta, (n - 1) * delta, n);
    assert((n - 1) * delta == (-delta) + delta * n) by (nonlinear_arith);
    vstd::arithmetic::div_mod::lemma_hoist_over_denominator(-delta, delta, n as nat);
    assert(((n - 1) * delta) / n == (-delta) / n + delta);
    vstd::arithmetic::div_mod::lemma_div_is_ordered(-delta, -n, n);
    assert((-n) == n * (-1)) by (nonlinear_arith);
    vstd::arithmetic::div_mod::lemma_div_multiples_vanish(-1, n);
}

/// Approximate the path of a global curve over a range.
///
/// The boundaries of the range are not included in the result: a line
/// contributes no interior samples at all, and a circle's samples lie
/// strictly inside the range.
pub fn approx_global_path(k: &Curve, range: RangeOnCurve, tol: Tolerance)
    -> (v: Vec<ApproxPoint1>)
    requires
        curve_wf(*k),
        range_ok(*k, range),
        tolerance_wf(tol),
    ensures
        v@ == spec_global_points(*k, range.start as int, range.end as int, tol.ticks as int),
{
    match k {
        Curve::Line(_) => {
            let v: Vec<ApproxPoint1> = Vec::new();
            proof {
                assert(v@ =~= spec_global_points(
                    *k, range.start as int, range.end as int, tol.ticks as int));
            }
            v
        }
        Curve::Circle(c) => {
            let delta = range.end - range.start;
            let n = circle_count(c, &tol, delta);
            if n == 0 {
                let v: Vec<ApproxPoint1> = Vec::new();
                proof {
                    assert(v@ =~= spec_global_points(
                        *k, range.start as int, range.end as int, tol.ticks as int));
                }
                v
            } else {
                let params = sample_params(range.start, delta, n);
                let mut v: Vec<ApproxPoint1> = Vec::new();
                let mut i: usize = 0;
                let end_count = params.len();
                while i < end_count
                    invariant
                        end_count == params@.len(),
                        v@.len() == i,
                        0 <= i <= end_count,
                        curve_wf(*k),
                        *k == Curve::Circle(*c),
                        range_ok(*k, range),
                        n as int == spec_circle_count(
                            spec_normsq3(c.a), tol.ticks as int, range.end - range.start),
                        params@.len() == n - 1,
                        forall|j: int| 0 <= j < n - 1 ==> #[trigger] params@[j]
                            == spec_param_at(range.start as int, range.end - range.start,
                                n as int, j),
                        forall|j: int| 0 <= j < n - 1 ==>
                            range.start < #[trigger] params@[j] < range.end,
                        forall|j: int| 0 <= j < i ==> #[trigger] v@[j] == spec_global_points(
                            *k, range.start as int, range.end as int, tol.ticks as int)[j],
                    decreases end_count - i,
                {
                    let t = params[i];
                    let p = curve_point(k, t);
                    v.push(ApproxPoint1 { local: t, global: p });
                    i = i + 1;
                }
                proof {
                    assert(v@ =~= spec_global_points(
                        *k, range.start as int, range.end as int, tol.ticks as int));
                }
                v
            }
        }
    }
}

/// The identity-keyed approximation cache.
///
/// Keyed by the identity of a global curve. A curve already in the cache
/// is never sampled again: both of two local curves sharing a seam receive
/// the stored sequence.
pub struct ApproxCache {
    /// The stored approximations, one entry per global curve identity.
    pub entries: Vec<(u64, GlobalPathApprox)>,
    /// How many approximations were computed, that is, how many lookups
    /// missed.
    pub computations: u64,
}

/// Identities in the cache are unique, and every stored sample coordinate
/// lies within a full turn — as every sample a circle subdivision can
/// produce does.
pub open spec fn cache_wf(c: ApproxCache) -> bool {
    &&& forall|i: int, j: int| 0 <= i < j < c.entries@.len()
        ==> (#[trigger] c.entries@[i]).0 != (#[trigger] c.entries@[j]).0
    &&& forall|i: int, j: int| 0 <= i < c.entries@.len()
        && 0 <= j < (#[trigger] c.entries@[i]).1.points@.len()
        ==> 0 <= (#[trigger] c.entries@[i].1.points@[j]).local <= FULL_TURN
}

/// Whether the cache holds an entry for the given identity.
pub open spec fn cache_contains(c: ApproxCache, id: u64) -> bool {
    exists|i: int| 0 <= i < c.entries@.len() && (#[trigger] c.entries@[i]).0 == id
}

/// The stored sequence for the given identity.
pub open spec fn cache_at(c: ApproxCache, id: u64) -> Seq<ApproxPoint1> {
    c.entries@[choose|i: int|
        0 <= i < c.entries@.len() && (#[trigger] c.entries@[i]).0 == id].1.points@
}

/// In a well-formed cache the entry found at any index is the entry of its
/// identity.
proof fn lemma_cache_at(c: ApproxCache, i: int)
    requires
        cache_wf(c),
        0 <= i < c.entries@.len(),
    ensures
        cache_contains(c, c.entries@[i].0),
        cache_at(c, c.entries@[i].0) == c.entries@[i].1.points@,
{
    let id = c.entries@[i].0;
    assert(0 <= i < c.entries@.len() && c.entries@[i].0 == id);
    let w = choose|j: int| 0 <= j < c.entries@.len() && (#[trigger] c.entries@[j]).0 == id;
    if w != i {
        if w < i {
            assert(c.entries@[w].0 != c.entries@[i].0);
        } else {
            assert(c.entries@[i].0 != c.entries@[w].0);
        }
    }
}

/// Copy a vector of samples.
fn copy_points(v: &Vec<ApproxPoint1>) -> (r: Vec<ApproxPoint1>)
    ensures
        r@ == v@,
{
    let mut r: Vec<ApproxPoint1> = Vec::new();
    let mut i: usize = 0;
    while i < v.len()
        invariant
            0 <= i <= v@.len(),
            r@ == v@.subrange(0, i as int),
        decreases v@.len() - i,
    {
        r.push(v[i]);
        proof {
            assert(r@ =~= v@.subrange(0, i + 1));
        }
        i = i + 1;
    }
    proof {
        assert(r@ =~= v@);
    }
    r
}

impl ApproxCache {
    /// An empty cache that has computed nothing.
    pub fn new() -> (r: ApproxCache)
        ensures
            r.entries@.len() == 0,
            r.computations == 0,
            cache_wf(r),
    {
        ApproxCache { entries: Vec::new(), computations: 0 }
    }

    /// Look up the stored approximation of a global curve.
    pub fn global_curve(&self, curve: &GlobalCurve) -> (r: Option<GlobalPathApprox>)
        requires
            cache_wf(*self),
        ensures
            r is Some <==> cache_contains(*self, curve.id),
            r is Some ==> r->Some_0.points@ == cache_at(*self, curve.id),
    {
        let mut i: usize = 0;
        let n = self.entries.len();
        while i < n
            invariant
                cache_wf(*self),
                n == self.entries@.len(),
                0 <= i <= n,
                forall|j: int| 0 <= j < i ==> (#[trigger] self.entries@[j]).0 != curve.id,
            decreases n - i,
        {
            if self.entries[i].0 == curve.id {
                let points = copy_points(&self.entries[i].1.points);
                proof {
                    lemma_cache_at(*self, i as int);
                }
                return Some(GlobalPathApprox { points });
            }
            i = i + 1;
        }
        None
    }

    /// Store the approximation of a global curve that is not yet cached,
    /// and hand it back.
    pub fn insert_global_curve(&mut self, curve: &GlobalCurve, approx: GlobalPathApprox)
        -> (r: GlobalPathApprox)
        requires
            cache_wf(*old(self)),
            !cache_contains(*old(self), curve.id),
            forall|j: int| 0 <= j < approx.points@.len()
                ==> 0 <= (#[trigger] approx.points@[j]).local <= FULL_TURN,
        ensures
            cache_wf(*final(self)),
            cache_contains(*final(self), curve.id),
            cache_at(*final(self), curve.id) == approx.points@,
            r.points@ == approx.points@,
            final(self).computations == old(self).computations,
            forall|id: u64| id != curve.id
                ==> (cache_contains(*final(self), id) <==> cache_contains(*old(self), id)),
            forall|id: u64| id != curve.id && cache_contains(*old(self), id)
                ==> cache_at(*final(self), id) == cache_at(*old(self), id),
    {
        let r = GlobalPathApprox { points: copy_points(&approx.points) };
        self.entries.push((curve.id, approx));
        proof {
            let c1 = *self;
            let len = c1.entries@.len();
            assert(c1.entries@[len - 1].0 == curve.id);
            assert forall|i: int, j: int| 0 <= i < j < len implies
                (#[trigger] c1.entries@[i]).0 != (#[trigger] c1.entries@[j]).0 by {
                if j < len - 1 {
                } else {
                    assert(cache_contains(*old(self), c1.entries@[i].0) == true || i >= len - 1);
                }
            }
            lemma_cache_at(c1, len - 1);
            assert forall|id: u64| id != curve.id && cache_contains(c1, id)
                implies cache_contains(*old(self), id) by {
                let w = choose|i: int| 0 <= i < c1.entries@.len()
                    && (#[trigger] c1.entries@[i]).0 == id;
                assert(w < len - 1);
            }
            assert forall|id: u64| id != curve.id && cache_contains(*old(self), id)
                implies cache_contains(c1, id) && cache_at(c1, id) == cache_at(*old(self), id) by {
                let w = choose|i: int| 0 <= i < old(self).entries@.len()
                    && (#[trigger] old(self).entries@[i]).0 == id;
                assert(c1.entries@[w].0 == id);
                lemma_cache_at(c1, w);
                lemma_cache_at(*old(self), w);
            }
        }
        r
    }
}

/// The sequence an approximation call returns: the stored one on a hit,
/// the freshly computed one on a miss.
pub open spec fn transition_result(pre: ApproxCache, g: GlobalCurve, range: RangeOnCurve,
    tol: Tolerance) -> Seq<ApproxPoint1> {
    if cache_contains(pre, g.id) {
        cache_at(pre, g.id)
    } else {
        spec_global_points(g.path, range.start as int, range.end as int, tol.ticks as int)
    }
}

/// How one cached approximation call changes the cache: a hit returns the
/// stored sequence unchanged and computes nothing; a miss computes the
/// approximation exactly once, stores it and returns it. Entries of other
/// curves are untouched either way.
pub open spec fn approx_transition(pre: ApproxCache, post: ApproxCache, g: GlobalCurve,
    range: RangeOnCurve, tol: Tolerance, result: Seq<ApproxPoint1>) -> bool {
    &&& result == transition_result(pre, g, range, tol)
    &&& cache_contains(post, g.id)
    &&& cache_at(post, g.id) == result
    &&& if cache_contains(pre, g.id) {
        post == pre
    } else {
        &&& post.computations == pre.computations + 1
        &&& forall|id: u64| id != g.id
            ==> (cache_contains(post, id) <==> cache_contains(pre, id))
        &&& forall|id: u64| id != g.id && cache_contains(pre, id)
            ==> cache_at(post, id) == cache_at(pre, id)
    }
}

/// Approximate a global curve over a range, through the cache.
///
/// If the cache already holds an entry for the curve's identity, that
/// entry is returned unchanged; otherwise the approximation is computed
/// exactly once, stored, and returned.
pub fn approx_global_with_cache(g: &GlobalCurve, range: RangeOnCurve, tol: Tolerance,
    cache: &mut ApproxCache) -> (r: GlobalPathApprox)
    requires
        curve_wf(g.path),
        range_ok(g.path, range),
        tolerance_wf(tol),
        cache_wf(*old(cache)),
        old(cache).computations < u64::MAX,
    ensures
        cache_wf(*final(cache)),
        approx_transition(*old(cache), *final(cache), *g, range, tol, r.points@),
    {
    let cached = cache.global_curve(g);
    match cached {
        Some(approx) => {
            proof {
                assert(*cache == *old(cache));
                assert(cache_contains(*cache, g.id));
                assert(approx.points@ == cache_at(*old(cache), g.id));
                assert(approx.points@ == transition_result(*old(cache), *g, range, tol));
            }
            approx
        }
        None => {
            let points = approx_global_path(&g.path, range, tol);
            proof {
                lemma_global_points_in_turn(g.path, range, tol.ticks as int);
            }
            cache.computations = cache.computations + 1;
            let ghost mid = *cache;
            let r = cache.insert_global_curve(g, GlobalPathApprox { points });
            proof {
                assert(mid.entries == old(cache).entries);
                assert forall|id: u64| id != g.id implies
                    (cache_contains(*cache, id) <==> cache_contains(*old(cache), id)) by {
                    assert(cache_contains(mid, id) <==> cache_contains(*cache, id));
                }
                assert forall|id: u64| id != g.id && cache_contains(*old(cache), id) implies
                    cache_at(*cache, id) == cache_at(*old(cache), id) by {
                    assert(cache_contains(mid, id));
                    assert(cache_at(*cache, id) == cache_at(mid, id));
                }
            }
            r
        }
    }
}

/// Every sample a range approximation produces has its local coordinate
/// strictly inside the range; in particular, for a circle it lies within a
/// full turn.
proof fn lemma_global_points_in_turn(k: Curve, range: RangeOnCurve, tol: int)
    requires
        curve_wf(k),
        range_ok(k, range),
        0 < tol,
    ensures
        forall|j: int| 0 <= j < spec_global_points(
            k, range.start as int, range.end as int, tol).len()
            ==> 0 <= (#[trigger] spec_global_points(
                k, range.start as int, range.end as int, tol)[j]).local <= FULL_TURN,
{
    lemma_boundary_exclusion(k, range, tol);
}

/// Boundary exclusion: no point of a range approximation has the local
/// coordinate of either boundary of the range — every sample lies strictly
/// between them.
pub proof fn lemma_boundary_exclusion(k: Curve, range: RangeOnCurve, tol: int)
    requires
        curve_wf(k),
        range_ok(k, range),
        0 < tol,
    ensures
        forall|j: int| 0 <= j < spec_global_points(
            k, range.start as int, range.end as int, tol).len()
            ==> range.start < (#[trigger] spec_global_points(
                k, range.start as int, range.end as int, tol)[j]).local < range.end,
{
    let start = range.start as int;
    let end = range.end as int;
    let pts = spec_global_points(k, start, end, tol);
    match k {
        Curve::Line(_) => {
        }
        Curve::Circle(c) => {
            let delta = end - start;
            let n = spec_circle_count(spec_normsq3(c.a), tol, delta);
            if delta > 0 {
                assert forall|j: int| 0 <= j < pts.len()
                    implies start < (#[trigger] pts[j]).local < end by {
                    lemma_count_in_range(spec_normsq3(c.a), tol, delta);
                    lemma_param_in_interior(delta, n, j + 1);
                    assert(pts[j].local == spec_param_at(start, delta, n, j) as i64);
                }
            }
        }
    }
}

/// For a positive range the subdivision count is between one and the
/// range's length.
proof fn lemma_count_in_range(rsq: int, tol: int, delta: int)
    requires
        0 < delta,
        0 < tol,
        0 <= rsq,
    ensures
        1 <= spec_circle_count(rsq, tol, delta) <= delta,
{
    let r = spec_isqrt(rsq);
    lemma_spec_isqrt_facts(rsq);
    assert(5 * r >= 0) by (nonlinear_arith)
        requires
            r >= 0,
    ;
    vstd::arithmetic::div_mod::lemma_div_pos_is_pos(5 * r, tol);
    lemma_spec_isqrt_facts(5 * r / tol);
}

/// The subdivision count never grows when the tolerance grows: a coarser
/// tolerance never asks for more samples.
pub proof fn lemma_count_monotone_in_tolerance(rsq: int, tol1: int, tol2: int, delta: int)
    requires
        0 < tol1 <= tol2,
        0 <= rsq,
        0 <= delta,
    ensures
        spec_circle_count(rsq, tol1, delta) >= spec_circle_count(rsq, tol2, delta),
{
    if delta > 0 {
        let r = spec_isqrt(rsq);
        lemma_spec_isqrt_facts(rsq);
        vstd::arithmetic::div_mod::lemma_div_is_ordered_by_denominator(5 * r, tol1, tol2);
        lemma_spec_isqrt_facts(5 * r / tol1);
        lemma_spec_isqrt_facts(5 * r / tol2);
        lemma_isqrt_monotone(5 * r / tol2, spec_isqrt(5 * r / tol2),
            5 * r / tol1, spec_isqrt(5 * r / tol1));
        assert(5 * r >= 0) by (nonlinear_arith)
            requires
                r >= 0,
        ;
        vstd::arithmetic::div_mod::lemma_div_pos_is_pos(5 * r, tol1);
        vstd::arithmetic::div_mod::lemma_div_pos_is_pos(5 * r, tol2);
    }
}

/// For a nonnegative argument the chosen integer square root satisfies its
/// defining property.
proof fn lemma_spec_isqrt_facts(n: int)
    requires
        0 <= n,
    ensures
        is_isqrt(n, spec_isqrt(n)),
        spec_isqrt(n) >= 0,
{
    assert(n < (n + 1) * (n + 1)) by (nonlinear_arith)
        requires
            0 <= n,
    ;
    let r = sqrt_witness(n, n);
    lemma_isqrt_is_spec(n, r);
}

/// A witness for the integer square root, found by descent.
proof fn sqrt_witness(n: int, hi: int) -> (r: int)
    requires
        0 <= n,
        0 <= hi,
        n < (hi + 1) * (hi + 1),
    ensures
        is_isqrt(n, r),
    decreases hi,
{
    if hi * hi <= n {
        hi
    } else {
        assert(0 < hi) by (nonlinear_arith)
            requires
                0 <= n,
                0 <= hi,
                hi * hi > n,
        ;
        sqrt_witness(n, hi - 1)
    }
}

/// The surface-embedded image of a global sample: the surface-local point
/// of the local path at the sample's coordinate, the global position kept,
/// and a source tag naming the curve identity and the coordinate.
pub open spec fn lift_point(c: LocalCurve, p: ApproxPoint1) -> ApproxPoint2 {
    ApproxPoint2 {
        local: Point2 {
            x: spec_path_point(c.path, p.local as int).0 as i64,
            y: spec_path_point(c.path, p.local as int).1 as i64,
        },
        global: p.global,
        source: Some(ApproxSource { curve_id: c.global_form.id, param: p.local }),
    }
}

/// Every stored sample of a cached curve lies within a full turn.
proof fn lemma_cache_at_bounded(c: ApproxCache, id: u64)
    requires
        cache_wf(c),
        cache_contains(c, id),
    ensures
        forall|j: int| 0 <= j < cache_at(c, id).len()
            ==> 0 <= (#[trigger] cache_at(c, id)[j]).local <= FULL_TURN,
{
    let w = choose|i: int| 0 <= i < c.entries@.len() && (#[trigger] c.entries@[i]).0 == id;
    assert(cache_at(c, id) == c.entries@[w].1.points@);
}

/// Approximate a surface-embedded curve over a range, through the cache.
///
/// The global curve the local curve refers to is approximated — at most
/// once per identity — and each global sample is paired with its
/// surface-local position under the local path, tagged with its source.
pub fn approx_with_cache(curve: &LocalCurve, range: RangeOnCurve, tol: Tolerance,
    cache: &mut ApproxCache) -> (r: CurveApprox)
    requires
        local_curve_wf(*curve),
        range_ok(curve.global_form.path, range),
        tolerance_wf(tol),
        cache_wf(*old(cache)),
        old(cache).computations < u64::MAX,
    ensures
        cache_wf(*final(cache)),
        approx_transition(*old(cache), *final(cache), curve.global_form, range, tol,
            transition_result(*old(cache), curve.global_form, range, tol)),
        r.points@ == transition_result(*old(cache), curve.global_form, range, tol)
            .map_values(|p: ApproxPoint1| lift_point(*curve, p)),
    {
    proof {
        if cache_contains(*old(cache), curve.global_form.id) {
            lemma_cache_at_bounded(*old(cache), curve.global_form.id);
        } else {
            lemma_global_points_in_turn(curve.global_form.path, range, tol.ticks as int);
        }
    }
    let approx = approx_global_with_cache(&curve.global_form, range, tol, cache);
    let ghost gseq = transition_result(*old(cache), curve.global_form, range, tol);
    let mut points: Vec<ApproxPoint2> = Vec::new();
    let n = approx.points.len();
    let mut i: usize = 0;
    while i < n
        invariant
            local_curve_wf(*curve),
            n == approx.points@.len(),
            approx.points@ == gseq,
            0 <= i <= n,
            forall|j: int| 0 <= j < n ==> 0 <= (#[trigger] gseq[j]).local <= FULL_TURN,
            points@.len() == i,
            forall|j: int| 0 <= j < i ==> #[trigger] points@[j] == lift_point(*curve, gseq[j]),
        decreases n - i,
    {
        let p = approx.points[i];
        let local = path_point(&curve.path, p.local);
        points.push(ApproxPoint2 {
            local,
            global: p.global,
            source: Some(ApproxSource { curve_id: curve.global_form.id, param: p.local }),
        });
        i = i + 1;
    }
    let r = CurveApprox::empty().with_points(points);
    proof {
        assert(r.points@ =~= gseq.map_values(|p: ApproxPoint1| lift_point(*curve, p)));
    }
    r
}

/// Tolerance bound: every sample point a range approximation produces
/// lies within the tolerance of the exact curve.
///
/// A line contributes no samples, so the claim is about circles: for a
/// tolerance between the engine's precision floor — nine ticks plus two
/// parts in ten million of the radius — and the radius itself, the
/// squared distance of every produced point from the centre lies between
/// `(r - tol)^2` and `(r + tol)^2`, where `r` is the integer square root
/// of the circle's squared radius.
pub proof fn lemma_samples_within_tolerance(c: Circle, range: RangeOnCurve, tol: Tolerance)
    requires
        crate::curves::circle_wf(c),
        range_ok(Curve::Circle(c), range),
        tolerance_wf(tol),
        10 <= spec_isqrt(spec_normsq3(c.a)),
        10 + 2 * (spec_isqrt(spec_normsq3(c.a)) / (crate::math::SCALE as int)) <= tol.ticks
            <= spec_isqrt(spec_normsq3(c.a)),
    ensures
        ({
            let pts = spec_global_points(
                Curve::Circle(c), range.start as int, range.end as int, tol.ticks as int);
            let r = spec_isqrt(spec_normsq3(c.a));
            forall|j: int| 0 <= j < pts.len() ==> {
                let g = (#[trigger] pts[j]).global;
                let dx = g.x - c.center.x;
                let dy = g.y - c.center.y;
                let dz = g.z - c.center.z;
                (r - tol.ticks) * (r - tol.ticks) <= dx * dx + dy * dy + dz * dz
                    <= (r + tol.ticks) * (r + tol.ticks)
            }
        }),
{
    let k = Curve::Circle(c);
    let pts = spec_global_points(k, range.start as int, range.end as int, tol.ticks as int);
    lemma_boundary_exclusion(k, range, tol.ticks as int);
    assert forall|j: int| 0 <= j < pts.len() implies {
        let g = (#[trigger] pts[j]).global;
        let dx = g.x - c.center.x;
        let dy = g.y - c.center.y;
        let dz = g.z - c.center.z;
        let r = spec_isqrt(spec_normsq3(c.a));
        (r - tol.ticks) * (r - tol.ticks) <= dx * dx + dy * dy + dz * dz
            <= (r + tol.ticks) * (r + tol.ticks)
    } by {
        let delta = range.end - range.start;
        let n = spec_circle_count(spec_normsq3(c.a), tol.ticks as int, delta);
        let t = spec_param_at(range.start as int, delta, n, j);
        assert(delta > 0);
        lemma_count_in_range(spec_normsq3(c.a), tol.ticks as int, delta);
        lemma_param_in_interior(delta, n, j + 1);
        assert(range.start < t < range.end);
        assert(pts[j].local == t as i64);
        lemma_circle_point_in_range(c, t);
        crate::curves::lemma_circle_point_tolerance(c, t, tol.ticks as int);
        let p = crate::curves::spec_circle_point(c, t);
        assert(pts[j].global == (Point3 { x: p.0 as i64, y: p.1 as i64, z: p.2 as i64 }));
        assert(pts[j].global.x == p.0 && pts[j].global.y == p.1 && pts[j].global.z == p.2);
    }
}

/// A circle point's mathematical coordinates fit the machine integers: the
/// scaled-down displacement is within twice the coordinate bound of the
/// centre.
proof fn lemma_circle_point_in_range(c: Circle, t: int)
    requires
        crate::curves::circle_wf(c),
        0 <= t <= crate::math::FULL_TURN,
    ensures
        ({
            let p = crate::curves::spec_circle_point(c, t);
            i64::MIN <= p.0 <= i64::MAX && i64::MIN <= p.1 <= i64::MAX
                && i64::MIN <= p.2 <= i64::MAX
        }),
{
    let s = crate::math::SCALE as int;
    let d = crate::angle::spec_unit_dir(t);
    crate::angle::lemma_unit_dir_ring(t);
    lemma_scaled_comb_bound(c.a.x as int, c.b.x as int, d.0, d.1);
    lemma_scaled_comb_bound(c.a.y as int, c.b.y as int, d.0, d.1);
    lemma_scaled_comb_bound(c.a.z as int, c.b.z as int, d.0, d.1);
}

/// A combination of two coordinate-bounded values with ring components,
/// scaled down, stays within twice the coordinate bound.
proof fn lemma_scaled_comb_bound(a: int, b: int, cc: int, ss: int)
    requires
        -(COORD_MAX as int) <= a <= COORD_MAX as int,
        -(COORD_MAX as int) <= b <= COORD_MAX as int,
        -(crate::math::SCALE as int) <= cc <= crate::math::SCALE as int,
        -(crate::math::SCALE as int) <= ss <= crate::math::SCALE as int,
    ensures
        -2 * (COORD_MAX as int) <= (a * cc + b * ss) / (crate::math::SCALE as int)
            <= 2 * (COORD_MAX as int),
{
    let s = crate::math::SCALE as int;
    let cm = COORD_MAX as int;
    assert(-(cm * s) <= a * cc <= cm * s && -(cm * s) <= b * ss <= cm * s)
        by (nonlinear_arith)
        requires
            -cm <= a <= cm,
            -cm <= b <= cm,
            -s <= cc <= s,
            -s <= ss <= s,
            0 <= cm,
            0 <= s,
    ;
    vstd::arithmetic::div_mod::lemma_div_is_ordered(a * cc + b * ss, 2 * (cm * s), s);
    vstd::arithmetic::div_mod::lemma_div_is_ordered(-2 * (cm * s), a * cc + b * ss, s);
    assert(2 * (cm * s) == s * (2 * cm) && -2 * (cm * s) == s * (-2 * cm))
        by (nonlinear_arith);
    vstd::arithmetic::div_mod::lemma_div_multiples_vanish(2 * cm, s);
    vstd::arithmetic::div_mod::lemma_div_multiples_vanish(-2 * cm, s);
}

/// Cache correctness: of two successive approximation calls on one global
/// curve, the second returns a point-for-point identical sequence, the
/// approximation is computed exactly once across both calls, and the
/// second call changes nothing.
pub proof fn lemma_cache_at_most_once(c0: ApproxCache, c1: ApproxCache, c2: ApproxCache,
    g: GlobalCurve, range1: RangeOnCurve, range2: RangeOnCurve, tol1: Tolerance,
    tol2: Tolerance, r1: Seq<ApproxPoint1>, r2: Seq<ApproxPoint1>)
    requires
        !cache_contains(c0, g.id),
        approx_transition(c0, c1, g, range1, tol1, r1),
        approx_transition(c1, c2, g, range2, tol2, r2),
    ensures
        r2 == r1,
        c2 == c1,
        c1.computations == c0.computations + 1,
        c2.computations == c0.computations + 1,
{
}

} // verus!
