//! The scene as one ray meets it, and the search for the closest hit.

use vstd::prelude::*;
use crate::hitable::{seen, Crossing, HitRecord};
use crate::interval::Interval;

verus! {

/// The objects of the scene in scene order, each as the ray crosses it.
pub struct HitableList {
    pub objects: Vec<Option<Crossing>>,
}

impl View for HitableList {
    type V = Seq<Option<Crossing>>;

    open spec fn view(&self) -> Seq<Option<Crossing>> {
        self.objects@
    }
}

/// The bounds left for the objects still to come once `found` is the best hit
/// so far: nothing farther than that hit counts.
pub open spec fn narrowed(bounds: Interval, found: Option<HitRecord>) -> Interval {
    match found {
        Some(record) => Interval { low: bounds.low, high: record.t },
        None => bounds,
    }
}

/// The result of going through `objects` from the first to the last, each
/// object tested against the bounds as the hits before it have narrowed them.
pub open spec fn scan(objects: Seq<Option<Crossing>>, bounds: Interval) -> Option<HitRecord>
    decreases objects.len(),
{
    if objects.len() == 0 {
        None
    } else {
        let before = scan(objects.drop_last(), bounds);
        match seen(objects.last(), narrowed(bounds, before)) {
            Some(t) => Some(HitRecord { t, object: (objects.len() - 1) as usize }),
            None => before,
        }
    }
}

/// Every crossing in `objects` has its roots in order.
pub open spec fn all_ordered(objects: Seq<Option<Crossing>>) -> bool {
    forall|k: int|
        0 <= k < objects.len() ==> ((#[trigger] objects[k]) matches Some(crossing)
            ==> crossing.ordered())
}

/// `found` is the closest hit within `bounds` among `objects`: it is an
/// object's own hit, no object is hit closer, and of the objects hit at that
/// same distance it is the last. Where no object is hit, there is none.
pub open spec fn closest(
    objects: Seq<Option<Crossing>>,
    bounds: Interval,
    found: Option<HitRecord>,
) -> bool {
    match found {
        Some(record) => {
            &&& record.object < objects.len()
            &&& seen(objects[record.object as int], bounds) == Some(record.t)
            &&& forall|k: int|
                0 <= k < objects.len() ==> (#[trigger] seen(objects[k], bounds) matches Some(t)
                    ==> record.t < t || (record.t == t && k <= record.object))
        },
        None => forall|k: int|
            0 <= k < objects.len() ==> (#[trigger] seen(objects[k], bounds)) is None,
    }
}

/// Going through objects with ordered roots, under bounds that narrow with
/// every hit, ends on the closest hit.
pub proof fn lemma_scan_closest(objects: Seq<Option<Crossing>>, bounds: Interval)
    requires
        all_ordered(objects),
        objects.len() <= usize::MAX,
    ensures
        closest(objects, bounds, scan(objects, bounds)),
    decreases objects.len(),
{
    if objects.len() > 0 {
        let front = objects.drop_last();
        lemma_scan_closest(front, bounds);
        let before = scan(front, bounds);
        let last = objects.len() - 1;
        assert(forall|k: int| 0 <= k < last ==> front[k] == objects[k]);
        assert(objects[last] matches Some(crossing) ==> crossing.ordered());
        let found = scan(objects, bounds);
        match found {
            Some(record) => {
                assert forall|k: int| 0 <= k < objects.len() implies (#[trigger] seen(
                    objects[k],
                    bounds,
                ) matches Some(t) ==> record.t < t || (record.t == t && k <= record.object)) by {
                    if k < last {
                        assert(front[k] == objects[k]);
                    }
                }
            },
            None => {
                assert forall|k: int| 0 <= k < objects.len() implies (#[trigger] seen(
                    objects[k],
                    bounds,
                )) is None by {
                    if k < last {
                        assert(front[k] == objects[k]);
                    }
                }
            },
        }
    }
}

/// Where the ray hits no object within the bounds, the search finds no hit.
pub proof fn lemma_nothing_seen_no_hit(objects: Seq<Option<Crossing>>, bounds: Interval)
    requires
        forall|k: int| 0 <= k < objects.len() ==> (#[trigger] seen(objects[k], bounds)) is None,
    ensures
        scan(objects, bounds) is None,
    decreases objects.len(),
{
    if objects.len() > 0 {
        let front = objects.drop_last();
        assert forall|k: int| 0 <= k < front.len() implies (#[trigger] seen(
            front[k],
            bounds,
        )) is None by {
            assert(front[k] == objects[k]);
        }
        lemma_nothing_seen_no_hit(front, bounds);
        assert(seen(objects[objects.len() - 1], bounds) is None);
    }
}

/// The distance of a hit, where there is one.
pub open spec fn distance(found: Option<HitRecord>) -> Option<i64> {
    match found {
        Some(record) => Some(record.t),
        None => None,
    }
}

/// The order in which the objects are listed does not change how far the
/// closest hit is: two lists that hold the same objects, each as often as the
/// other, give the same distance, or both give no hit. (Which of several
/// objects hit at that distance is reported does depend on the order.)
pub proof fn lemma_hit_order_free(
    one: Seq<Option<Crossing>>,
    other: Seq<Option<Crossing>>,
    bounds: Interval,
)
    requires
        all_ordered(one),
        one.to_multiset() == other.to_multiset(),
        one.len() <= usize::MAX,
    ensures
        distance(scan(one, bounds)) == distance(scan(other, bounds)),
{
    one.to_multiset_ensures();
    other.to_multiset_ensures();
    assert forall|k: int| 0 <= k < other.len() implies exists|j: int|
        0 <= j < one.len() && one[j] == #[trigger] other[k] by {
        assert(other.contains(other[k]));
        assert(other.to_multiset().count(other[k]) > 0);
        assert(one.to_multiset().count(other[k]) > 0);
        assert(one.contains(other[k]));
    }
    assert forall|k: int| 0 <= k < one.len() implies exists|j: int|
        0 <= j < other.len() && other[j] == #[trigger] one[k] by {
        assert(one.contains(one[k]));
        assert(one.to_multiset().count(one[k]) > 0);
        assert(other.to_multiset().count(one[k]) > 0);
        assert(other.contains(one[k]));
    }
    assert(all_ordered(other)) by {
        assert forall|k: int| 0 <= k < other.len() implies ((#[trigger] other[k]) matches Some(
            crossing,
        ) ==> crossing.ordered()) by {
            let j = choose|j: int| 0 <= j < one.len() && one[j] == other[k];
            assert(one[j] matches Some(crossing) ==> crossing.ordered());
        }
    }
    lemma_scan_closest(one, bounds);
    lemma_scan_closest(other, bounds);
    let first = scan(one, bounds);
    let second = scan(other, bounds);
    match first {
        Some(record) => {
            let j = choose|j: int| 0 <= j < other.len() && other[j] == one[record.object as int];
            assert(seen(other[j], bounds) == Some(record.t));
            let found = second->0;
            let i = choose|i: int| 0 <= i < one.len() && one[i] == other[found.object as int];
            assert(seen(one[i], bounds) == Some(found.t));
        },
        None => {
            if second is Some {
                let found = second->0;
                let i = choose|i: int| 0 <= i < one.len() && one[i] == other[found.object as int];
                assert(seen(one[i], bounds) == Some(found.t));
            }
        },
    }
}

impl HitableList {
    /// A scene with no object in it.
    pub fn new() -> (made: HitableList)
        ensures
            made@ == Seq::<Option<Crossing>>::empty(),
    {
        HitableList { objects: Vec::new() }
    }

    /// Puts `object` behind the objects already listed.
    pub fn add(&mut self, object: Option<Crossing>)
        ensures
            final(self)@ == old(self)@.push(object),
    {
        self.objects.push(object);
    }

    /// Searches the list for the hit within `bounds` that is closest to the
    /// ray's origin. Every object is tested once, in list order, against the
    /// bounds as narrowed by the closest hit found so far.
    pub fn hit(&self, bounds: Interval) -> (found: Option<HitRecord>)
        ensures
            found == scan(self@, bounds),
            all_ordered(self@) ==> closest(self@, bounds, found),
    {
        let mut window = bounds;
        let mut record: Option<HitRecord> = None;
        let count: usize = self.objects.len();
        let mut k: usize = 0;
        while k < count
            invariant
                k <= count,
                count == self.objects@.len(),
                record == scan(self@.take(k as int), bounds),
                window == narrowed(bounds, record),
            decreases count - k,
        {
            proof {
                assert(self@.take(k + 1).drop_last() == self@.take(k as int));
                assert(self@.take(k + 1).last() == self@[k as int]);
            }
            match &self.objects[k] {
                Some(crossing) => {
                    match crossing.hit(&window) {
                        Some(t) => {
                            window.shrink_right(t);
                            record = Some(HitRecord { t, object: k });
                        },
                        None => {},
                    }
                },
                None => {},
            }
            k = k + 1;
        }
        proof {
            assert(self@.take(count as int) == self@);
            if all_ordered(self@) {
                lemma_scan_closest(self@, bounds);
            }
        }
        record
    }
}

} // verus!
