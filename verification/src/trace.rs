//! The course of one light path: how deep it may go and how it ends.

use vstd::prelude::*;
use crate::hitable::{seen, Crossing, HitRecord};
use crate::hitable_list::{lemma_nothing_seen_no_hit, scan};
use crate::interval::Interval;

verus! {

/// What a ray met in the scene.
#[derive(Clone, Copy, Debug, PartialEq, Eq, Structural)]
pub enum Contact {
    /// The ray hit nothing.
    Miss,
    /// The ray hit a surface whose material sent no ray on.
    Absorbed,
    /// The ray hit a surface whose material sent a scattered ray on.
    Scattered,
}

/// Where a path stands.
#[derive(Clone, Copy, Debug, PartialEq, Eq, Structural)]
pub enum Path {
    /// The path goes on with a ray to intersect; `depth` rays may still be
    /// followed, this one included.
    Tracing { depth: usize },
    /// The path left the scene: it carries the sky's colour, weakened by every
    /// surface it scattered from.
    Sky,
    /// The path carries no light.
    Black,
}

impl Contact {
    /// What a ray met, given the hit that the search found for it and, for a
    /// hit, whether the material of the object hit sent a ray on.
    pub open spec fn of(found: Option<HitRecord>, scattered: bool) -> Contact {
        match found {
            None => Contact::Miss,
            Some(_) => if scattered {
                Contact::Scattered
            } else {
                Contact::Absorbed
            },
        }
    }

    /// Tells what a ray met from the hit that the search found for it and,
    /// for a hit, whether the material of the object hit sent a ray on. With
    /// no hit, `scattered` is not looked at.
    pub fn from_hit(found: &Option<HitRecord>, scattered: bool) -> (met: Contact)
        ensures
            met == Contact::of(*found, scattered),
            *found is None <==> met == Contact::Miss,
    {
        match found {
            None => Contact::Miss,
            Some(_) => {
                if scattered {
                    Contact::Scattered
                } else {
                    Contact::Absorbed
                }
            },
        }
    }
}

impl Path {
    /// The path at its start, with `max_depth` rays to follow at most.
    pub open spec fn begin(max_depth: usize) -> Path {
        if max_depth == 0 {
            Path::Black
        } else {
            Path::Tracing { depth: max_depth }
        }
    }

    /// The path after its current ray met `found`. A path that has ended stays
    /// as it is.
    pub open spec fn after(self, found: Contact) -> Path {
        match self {
            Path::Tracing { depth } => if depth == 0 {
                Path::Black
            } else {
                match found {
                    Contact::Miss => Path::Sky,
                    Contact::Absorbed => Path::Black,
                    Contact::Scattered => Path::begin((depth - 1) as usize),
                }
            },
            Path::Sky => Path::Sky,
            Path::Black => Path::Black,
        }
    }

    /// The path after its rays met `contacts`, one after the other.
    pub open spec fn run(self, contacts: Seq<Contact>) -> Path
        decreases contacts.len(),
    {
        if contacts.len() == 0 {
            self
        } else {
            self.run(contacts.drop_last()).after(contacts.last())
        }
    }

    /// Whether the path still has a ray to follow.
    pub open spec fn live(self) -> bool {
        self matches Path::Tracing { depth } && depth > 0
    }

    /// Starts a path that may follow `max_depth` rays. With none to follow it
    /// is black from the start.
    pub fn start(max_depth: usize) -> (path: Path)
        ensures
            path == Path::begin(max_depth),
            max_depth == 0 ==> path == Path::Black,
    {
        if max_depth == 0 {
            Path::Black
        } else {
            Path::Tracing { depth: max_depth }
        }
    }

    /// Whether the path still has a ray to follow.
    pub fn is_tracing(&self) -> (going: bool)
        ensures
            going == self.live(),
    {
        match self {
            Path::Tracing { depth } => *depth > 0,
            _ => false,
        }
    }

    /// Takes the path one ray further: a miss ends it in the sky, a surface
    /// that sends no ray on ends it in black, and a scattered ray is followed
    /// while the depth lasts.
    pub fn advance(self, found: Contact) -> (next: Path)
        ensures
            next == self.after(found),
            self.live() && found == Contact::Miss ==> next == Path::Sky,
            self.live() && found == Contact::Absorbed ==> next == Path::Black,
            !self.live() && self != Path::Sky ==> next == Path::Black,
    {
        match self {
            Path::Tracing { depth } => {
                if depth == 0 {
                    Path::Black
                } else {
                    match found {
                        Contact::Miss => Path::Sky,
                        Contact::Absorbed => Path::Black,
                        Contact::Scattered => Path::start(depth - 1),
                    }
                }
            },
            Path::Sky => Path::Sky,
            Path::Black => Path::Black,
        }
    }
}

/// A path with no depth to spend is black, whatever the scene holds and
/// whatever its rays would have met.
pub proof fn lemma_no_depth_is_black(contacts: Seq<Contact>)
    ensures
        Path::begin(0).run(contacts) == Path::Black,
    decreases contacts.len(),
{
    if contacts.len() > 0 {
        lemma_no_depth_is_black(contacts.drop_last());
    }
}

/// A path never follows more rays than its depth: while it is live after
/// `contacts.len()` rays, every one of them was scattered and the depth left
/// is what those rays did not use up.
pub proof fn lemma_depth_bounds_path(max_depth: usize, contacts: Seq<Contact>)
    ensures
        Path::begin(max_depth).run(contacts).live() ==> contacts.len() < max_depth
            && Path::begin(max_depth).run(contacts) == (Path::Tracing {
            depth: (max_depth - contacts.len()) as usize,
        }) && forall|k: int| 0 <= k < contacts.len() ==> contacts[k] == Contact::Scattered,
        contacts.len() >= max_depth ==> !Path::begin(max_depth).run(contacts).live(),
    decreases contacts.len(),
{
    if contacts.len() > 0 {
        let front = contacts.drop_last();
        lemma_depth_bounds_path(max_depth, front);
        assert(forall|k: int| 0 <= k < front.len() ==> front[k] == contacts[k]);
    }
}

/// A ray that hits no object of the scene within the bounds finds no hit,
/// and a live path ends in the sky with it.
pub proof fn lemma_miss_is_sky(
    objects: Seq<Option<Crossing>>,
    bounds: Interval,
    path: Path,
    scattered: bool,
)
    requires
        forall|k: int| 0 <= k < objects.len() ==> (#[trigger] seen(objects[k], bounds)) is None,
        path.live(),
    ensures
        scan(objects, bounds) is None,
        path.after(Contact::of(scan(objects, bounds), scattered)) == Path::Sky,
{
    lemma_nothing_seen_no_hit(objects, bounds);
}

} // verus!
