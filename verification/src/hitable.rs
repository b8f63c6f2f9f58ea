//! One object of the scene, as a single ray meets it.

use vstd::prelude::*;
use crate::interval::Interval;

verus! {

/// The two distances at which a ray's line crosses the surface of one object:
/// `near` is the smaller root of the intersection equation, `far` the larger.
///
/// An object that the line passes by has no crossing at all; a list of objects
/// holds `None` for it.
#[derive(Clone, Copy, Debug, PartialEq, Eq, Structural)]
pub struct Crossing {
    pub near: i64,
    pub far: i64,
}

/// The hit that a search settled on: the distance `t` along the ray, and the
/// position `object` in the list of the object that is hit.
#[derive(Clone, Copy, Debug, PartialEq, Eq, Structural)]
pub struct HitRecord {
    pub t: i64,
    pub object: usize,
}

impl Crossing {
    /// The roots are in order. They are whenever the ray's direction is not
    /// the zero vector.
    pub open spec fn ordered(self) -> bool {
        self.near <= self.far
    }

    /// The distance at which the ray hits the object within `bounds`: the
    /// near root if the bounds hold it, else the far root if they hold that,
    /// else nothing.
    pub open spec fn visible(self, bounds: Interval) -> Option<i64> {
        if bounds.holds(self.near) {
            Some(self.near)
        } else if bounds.holds(self.far) {
            Some(self.far)
        } else {
            None
        }
    }

    /// A crossing with the two roots `near` and `far`.
    pub fn new(near: i64, far: i64) -> (made: Crossing)
        ensures
            made.near == near,
            made.far == far,
    {
        Crossing { near, far }
    }

    /// Picks the root at which the ray hits the object within `bounds`,
    /// trying the near root first and the far root second.
    pub fn hit(&self, bounds: &Interval) -> (t: Option<i64>)
        ensures
            t == self.visible(*bounds),
    {
        if bounds.contains(self.near) {
            Some(self.near)
        } else if bounds.contains(self.far) {
            Some(self.far)
        } else {
            None
        }
    }
}

/// What `visible` says of an object that may have no crossing.
pub open spec fn seen(object: Option<Crossing>, bounds: Interval) -> Option<i64> {
    match object {
        Some(crossing) => crossing.visible(bounds),
        None => None,
    }
}

/// With ordered roots, the distance picked within bounds is the smallest root
/// that the bounds hold.
pub proof fn lemma_visible_is_smallest(crossing: Crossing, bounds: Interval)
    requires
        crossing.ordered(),
    ensures
        crossing.visible(bounds) matches Some(t) ==> bounds.holds(t) && (t == crossing.near || t
            == crossing.far) && (bounds.holds(crossing.near) ==> t <= crossing.near) && (
        bounds.holds(crossing.far) ==> t <= crossing.far),
        crossing.visible(bounds) is None ==> !bounds.holds(crossing.near) && !bounds.holds(
            crossing.far),
{
}

} // verus!
