use vstd::prelude::*;

use crate::lanes::{flatten_lanes, pack_lanes, padded};

verus! {

/// Magnitude bits (all but the sign) of an IEEE 754 binary32 bit pattern.
pub open spec fn magnitude(bits: u32) -> int {
    if bits >= 0x8000_0000 { bits - 0x8000_0000 } else { bits as int }
}

/// The bit pattern is a NaN: exponent all ones and a non-zero fraction.
pub open spec fn is_nan_bits(bits: u32) -> bool {
    magnitude(bits) > 0x7f80_0000
}

/// Position of a non-NaN binary32 value on the number line: IEEE 754 orders
/// values of one sign by their magnitude bits, and the two zeros are equal.
pub open spec fn ordinal(bits: u32) -> int {
    if bits >= 0x8000_0000 { -magnitude(bits) } else { magnitude(bits) }
}

/// `a < b` on the binary32 values with these bit patterns; false where
/// either is NaN.
pub open spec fn dist_lt(a: u32, b: u32) -> bool {
    !is_nan_bits(a) && !is_nan_bits(b) && ordinal(a) < ordinal(b)
}

/// Decides `dist_lt` on two hit distances given as binary32 bit patterns.
pub fn dist_less(a: u32, b: u32) -> (r: bool)
    ensures
        r == dist_lt(a, b),
{
    let ma = if a >= 0x8000_0000 { a - 0x8000_0000 } else { a };
    let mb = if b >= 0x8000_0000 { b - 0x8000_0000 } else { b };
    if ma > 0x7f80_0000 || mb > 0x7f80_0000 {
        return false;
    }
    let na = a >= 0x8000_0000;
    let nb = b >= 0x8000_0000;
    if na && nb {
        ma > mb
    } else if na {
        ma != 0 || mb != 0
    } else if nb {
        false
    } else {
        ma < mb
    }
}

/// `a <= b` on the binary32 values with these bit patterns; false where
/// either is NaN.
pub open spec fn dist_le(a: u32, b: u32) -> bool {
    !is_nan_bits(a) && !is_nan_bits(b) && ordinal(a) <= ordinal(b)
}

/// Decides `dist_le` on two distances given as binary32 bit patterns.
pub fn dist_less_eq(a: u32, b: u32) -> (r: bool)
    ensures
        r == dist_le(a, b),
{
    let ma = if a >= 0x8000_0000 { a - 0x8000_0000 } else { a };
    let mb = if b >= 0x8000_0000 { b - 0x8000_0000 } else { b };
    if ma > 0x7f80_0000 || mb > 0x7f80_0000 {
        return false;
    }
    !dist_less(b, a)
}

/// Bit pattern of `f32::MAX`, the distance reported for a miss.
pub const MISS_BITS: u32 = 0x7f7f_ffff;

/// `t` lies in the half-open range `(start, end]`.
pub open spec fn in_hit_range(t: u32, start: u32, end: u32) -> bool {
    dist_lt(start, t) && dist_le(t, end)
}

/// The hit distance of a surface crossed at `t1` and `t2` (binary32 bits),
/// within `(start, end]`: the nearer of the roots in range, the first on a
/// tie, or `MISS_BITS` where neither is in range.
pub fn nearer_root(t1: u32, t2: u32, start: u32, end: u32) -> (r: u32)
    ensures
        in_hit_range(t1, start, end) && (in_hit_range(t2, start, end) ==> !dist_lt(t2, t1)) ==> r == t1,
        in_hit_range(t2, start, end) && (in_hit_range(t1, start, end) ==> dist_lt(t2, t1)) ==> r == t2,
        !in_hit_range(t1, start, end) && !in_hit_range(t2, start, end) ==> r == MISS_BITS,
{
    let ok1 = dist_less(start, t1) && dist_less_eq(t1, end);
    let ok2 = dist_less(start, t2) && dist_less_eq(t2, end);
    if ok1 && (!ok2 || !dist_less(t2, t1)) {
        t1
    } else if ok2 {
        t2
    } else {
        MISS_BITS
    }
}

/// A sphere-traced lane stops for good once its distance `t` is past `end`
/// or is NaN, or once the field value `dist` at its point is below the hit
/// threshold `start`.
pub open spec fn march_stops(t: u32, dist: u32, start: u32, end: u32) -> bool {
    dist_lt(end, t) || is_nan_bits(t) || dist_lt(dist, start)
}

/// One sphere-tracing step of one lane at distance `t`, where the field
/// value is `dist` and `advanced` is `t + dist`: returns the lane's next
/// distance and whether it has stopped. A stopped lane keeps its distance.
pub fn march_lane(t: u32, dist: u32, advanced: u32, start: u32, end: u32) -> (r: (u32, bool))
    ensures
        r.1 == march_stops(t, dist, start, end),
        r.0 == if r.1 { t } else { advanced },
{
    let nan_t = (if t >= 0x8000_0000 { t - 0x8000_0000 } else { t }) > 0x7f80_0000;
    if dist_less(end, t) || nan_t || dist_less(dist, start) {
        (t, true)
    } else {
        (advanced, false)
    }
}

/// Hit distance that sphere tracing reports for a lane that ended at `t`:
/// `t` itself within `end`, else `MISS_BITS` (past the range, or NaN).
pub fn march_result(t: u32, end: u32) -> (r: u32)
    ensures
        dist_le(t, end) ==> r == t,
        !dist_le(t, end) ==> r == MISS_BITS,
{
    if dist_less_eq(t, end) {
        t
    } else {
        MISS_BITS
    }
}

/// Object `j` is the nearest hit among `dists` (one distance per object, for
/// one ray) closer than `end`: it is closer than `end`, no object is closer
/// than it, and every earlier object is either no hit or strictly farther, so
/// that the first of equally near objects wins.
pub open spec fn is_nearest(dists: Seq<u32>, end: u32, j: int) -> bool {
    &&& 0 <= j < dists.len()
    &&& dist_lt(dists[j], end)
    &&& forall|k: int| 0 <= k < dists.len() ==> !dist_lt(#[trigger] dists[k], dists[j])
    &&& forall|k: int| 0 <= k < j && dist_lt(#[trigger] dists[k], end) ==> dist_lt(dists[j], dists[k])
}

/// No object is hit closer than `end`.
pub open spec fn no_hit(dists: Seq<u32>, end: u32) -> bool {
    forall|k: int| 0 <= k < dists.len() ==> !dist_lt(#[trigger] dists[k], end)
}

/// The nearest object seen so far by one ray lane, while the objects are
/// tested in order.
#[derive(Clone, Copy, Debug, PartialEq, Eq, Structural)]
pub struct LaneNearest {
    /// Distance (binary32 bits) that a later object must beat: the range's
    /// end until something is hit, then the nearest hit's distance.
    pub closest: u32,
    pub id: Option<usize>,
}

impl LaneNearest {
    /// Nothing hit yet, within a range that ends at `end`.
    pub fn new(end: u32) -> (r: LaneNearest)
        ensures
            r.closest == end,
            r.id is None,
    {
        LaneNearest { closest: end, id: None }
    }

    /// Takes object `id`, hit at distance `t`, when it is strictly nearer
    /// than everything seen so far.
    pub fn consider(&mut self, id: usize, t: u32)
        ensures
            dist_lt(t, old(self).closest) ==> *final(self) == (LaneNearest { closest: t, id: Some(id) }),
            !dist_lt(t, old(self).closest) ==> *final(self) == *old(self),
    {
        if dist_less(t, self.closest) {
            self.closest = t;
            self.id = Some(id);
        }
    }
}

/// Finds, for one ray lane, the nearest of the objects whose distances are
/// `dists` (object `i` at `dists[i]`), among hits closer than `end`.
pub fn nearest_hit(end: u32, dists: &Vec<u32>) -> (r: Option<usize>)
    ensures
        r matches Some(j) ==> is_nearest(dists@, end, j as int),
        r is None <==> no_hit(dists@, end),
{
    let mut lane = LaneNearest::new(end);
    let mut k: usize = 0;
    while k < dists.len()
        invariant
            k <= dists.len(),
            lane.id is None ==> lane.closest == end && no_hit(dists@.subrange(0, k as int), end),
            lane.id matches Some(j) ==> j < k && lane.closest == dists@[j as int]
                && is_nearest(dists@.subrange(0, k as int), end, j as int),
        decreases dists.len() - k,
    {
        let ghost before = lane;
        let t = dists[k];
        lane.consider(k, t);
        proof {
            let s = dists@.subrange(0, k as int + 1);
            let p = dists@.subrange(0, k as int);
            assert forall|i: int| 0 <= i < k implies s[i] == p[i] && #[trigger] s[i] == dists@[i] by {}
            if dist_lt(t, before.closest) {
                assert forall|i: int| 0 <= i < s.len() implies !dist_lt(#[trigger] s[i], s[k as int]) by {
                    if i < k {
                        assert(s[i] == p[i]);
                    }
                }
                assert forall|i: int| 0 <= i < k && dist_lt(#[trigger] s[i], end) implies dist_lt(
                    s[k as int],
                    s[i],
                ) by {
                    assert(s[i] == p[i]);
                    if before.id is None {
                        assert(!dist_lt(p[i], end));
                    }
                }
                assert(is_nearest(s, end, k as int));
            } else {
                if let Some(j) = before.id {
                    assert forall|i: int| 0 <= i < s.len() implies !dist_lt(#[trigger] s[i], s[j as int]) by {
                        if i < k {
                            assert(s[i] == p[i]);
                        }
                    }
                    assert forall|i: int| 0 <= i < j && dist_lt(#[trigger] s[i], end) implies dist_lt(
                        s[j as int],
                        s[i],
                    ) by {
                        assert(s[i] == p[i]);
                    }
                    assert(is_nearest(s, end, j as int));
                } else {
                    assert forall|i: int| 0 <= i < s.len() implies !dist_lt(#[trigger] s[i], end) by {
                        if i < k {
                            assert(s[i] == p[i]);
                        }
                    }
                }
            }
        }
        k += 1;
    }
    assert(dists@.subrange(0, k as int) =~= dists@);
    lane.id
}

/// The nearest hit is unique: two objects that both meet `is_nearest` for
/// the same distances and range are the same object.
pub proof fn lemma_nearest_unique(dists: Seq<u32>, end: u32, a: int, b: int)
    requires
        is_nearest(dists, end, a),
        is_nearest(dists, end, b),
    ensures
        a == b,
{
    if a < b {
        assert(dist_lt(dists[b], dists[a]));
    } else if b < a {
        assert(dist_lt(dists[a], dists[b]));
    }
}

/// All top-level objects of a scene, each known by its position.
pub struct HitableStore<H> {
    pub hitables: Vec<H>,
}

impl<H> HitableStore<H> {
    pub fn new() -> (r: HitableStore<H>)
        ensures
            r.hitables@.len() == 0,
    {
        HitableStore { hitables: Vec::new() }
    }

    /// Adds an object; its handle is its position, the previous length.
    pub fn push(&mut self, hitable: H)
        ensures
            final(self).hitables@ == old(self).hitables@.push(hitable),
    {
        self.hitables.push(hitable);
    }

    pub fn len(&self) -> (r: usize)
        ensures
            r == self.hitables@.len(),
    {
        self.hitables.len()
    }

    pub fn get(&self, id: usize) -> (r: &H)
        requires
            id < self.hitables@.len(),
        ensures
            *r == self.hitables@[id as int],
    {
        &self.hitables[id]
    }
}

/// The hits of one bounce, in one bucket per scene object, so that the hits
/// on one object are turned into shading points together.
pub struct HitStore<R> {
    pub hits: Vec<Vec<R>>,
}

impl<R: Copy> HitStore<R> {
    /// The contents of bucket `obj` (hits on object `obj`, in order of arrival).
    pub open spec fn bucket(&self, obj: int) -> Seq<R> {
        self.hits@[obj]@
    }

    /// One empty bucket for each object of `hitable_store`.
    pub fn from_material_store<H>(hitable_store: &HitableStore<H>) -> (r: HitStore<R>)
        ensures
            r.hits@.len() == hitable_store.hitables@.len(),
            forall|i: int| 0 <= i < r.hits@.len() ==> #[trigger] r.bucket(i).len() == 0,
    {
        let n = hitable_store.len();
        let mut hits: Vec<Vec<R>> = Vec::new();
        let mut i: usize = 0;
        while i < n
            invariant
                i <= n,
                hits@.len() == i,
                forall|k: int| 0 <= k < i ==> (#[trigger] hits@[k])@.len() == 0,
            decreases n - i,
        {
            hits.push(Vec::new());
            i += 1;
        }
        HitStore { hits }
    }

    /// Files `hit` in the bucket of object `obj_id`.
    pub fn add_hit(&mut self, obj_id: usize, hit: R)
        requires
            obj_id < old(self).hits@.len(),
        ensures
            final(self).hits@.len() == old(self).hits@.len(),
            final(self).bucket(obj_id as int) == old(self).bucket(obj_id as int).push(hit),
            forall|i: int|
                0 <= i < final(self).hits@.len() && i != obj_id ==> #[trigger] final(self).bucket(i)
                    == old(self).bucket(i),
    {
        self.hits[obj_id].push(hit);
    }

    /// Each object's hits grouped into lane batches of four, the last batch
    /// of each object filled with `filler`: entry `i` holds object `i`'s.
    pub fn process_hits(&self, filler: R) -> (r: Vec<Vec<[R; 4]>>)
        ensures
            r@.len() == self.hits@.len(),
            forall|i: int|
                0 <= i < r@.len() ==> flatten_lanes((#[trigger] r@[i])@) == padded(
                    self.bucket(i),
                    filler,
                ),
    {
        let mut out: Vec<Vec<[R; 4]>> = Vec::new();
        let mut i: usize = 0;
        while i < self.hits.len()
            invariant
                i <= self.hits@.len(),
                out@.len() == i,
                forall|k: int|
                    0 <= k < i ==> flatten_lanes((#[trigger] out@[k])@) == padded(
                        self.bucket(k),
                        filler,
                    ),
            decreases self.hits@.len() - i,
        {
            let batches = pack_lanes(&self.hits[i], filler);
            out.push(batches);
            i += 1;
        }
        out
    }

    /// Empties every bucket, keeping one per object.
    pub fn reset(&mut self)
        ensures
            final(self).hits@.len() == old(self).hits@.len(),
            forall|i: int| 0 <= i < final(self).hits@.len() ==> #[trigger] final(self).bucket(i).len() == 0,
    {
        let mut i: usize = 0;
        while i < self.hits.len()
            invariant
                i <= self.hits@.len(),
                self.hits@.len() == old(self).hits@.len(),
                forall|k: int| 0 <= k < i ==> (#[trigger] self.hits@[k])@.len() == 0,
            decreases self.hits@.len() - i,
        {
            let ghost before = self.hits@;
            self.hits[i].clear();
            assert forall|k: int| 0 <= k < i implies (#[trigger] self.hits@[k])@.len() == 0 by {
                assert(self.hits@[k] == before[k]);
            }
            i += 1;
        }
    }
}

} // verus!
