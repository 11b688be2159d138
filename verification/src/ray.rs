//! The scene as one ray meets it, and the search for the nearest hit.
//!
//! Where a ray crosses a surface is found by floating-point arithmetic, and
//! that arithmetic is not done here. What is decided here is what follows it:
//! whether the ray's equation with an object has a solution at all, which of
//! the solutions counts within a range of the ray's parameter, which object of
//! a scene is hit first, which side of the surface the ray meets there, and
//! whether the normal is turned round. Each object is therefore held as the
//! numbers that its equation with one given ray has produced.

use vstd::prelude::*;
use crate::interval::Interval;
use crate::math::is_negative;
use crate::math::is_positive;
use crate::math::is_within;
use crate::math::Scalar;

verus! {

/// The key of the number below which the cosine between a ray and a plane's
/// normal counts as zero, so that the ray runs along the plane (the nearest
/// single-precision number to 1e-4).
pub const PARALLEL_KEY: i32 = 0x38D1_B717;

/// A hit of a ray on a surface.
#[derive(Clone, Copy, Debug)]
pub struct HitResult {
    /// The ray's parameter at the hit.
    pub t: Scalar,
    /// Whether the ray meets the surface from outside; `None` as long as
    /// nothing has decided it.
    pub front_face: Option<bool>,
    /// Whether the hit's normal is the surface's outward normal turned
    /// round: the ray leaves the surface from inside.
    pub normal_turned: bool,
    /// The material of the object that was hit.
    pub material_id: i32,
    /// The place of the object in the list that was searched; 0 where a
    /// single object was asked.
    pub object: usize,
}

/// Whether a ray meets a surface from outside, given the inner product
/// `facing` of the ray's direction and the surface's outward normal: it does
/// where the product is negative. A product that is NaN, given as `None`, is
/// not negative.
pub open spec fn is_front_face(facing: Option<Scalar>) -> bool {
    facing matches Some(d) && d@ < 0
}

/// Whether the outward normal is turned round for the hit, given the inner
/// product `facing` of the ray's direction and the surface's outward normal:
/// it is where the product is positive. A product that is NaN, given as
/// `None`, is not positive.
pub open spec fn turns_normal(facing: Option<Scalar>) -> bool {
    facing matches Some(d) && d@ > 0
}

impl HitResult {
    /// Decides which side of the surface the ray meets, and whether the
    /// outward normal is turned round, from the inner product `facing` of
    /// the ray's direction and the surface's outward normal.
    pub fn set_face_normal(&mut self, facing: Option<Scalar>)
        ensures
            final(self).front_face == Some(is_front_face(facing)),
            final(self).normal_turned == turns_normal(facing),
            final(self).t == old(self).t,
            final(self).material_id == old(self).material_id,
            final(self).object == old(self).object,
    {
        self.front_face = Some(is_negative(facing));
        self.normal_turned = is_positive(facing);
    }
}

/// A sphere as one ray meets it: the discriminant of the ray's quadratic
/// equation with the sphere, the equation's two solutions, the smaller one
/// first, and for each solution the inner product of the ray's direction and
/// the sphere's outward normal at that point. A number that came out as NaN
/// is `None`.
#[derive(Clone, Copy, Debug)]
pub struct Sphere {
    discriminant: Option<Scalar>,
    smaller: Option<Scalar>,
    smaller_facing: Option<Scalar>,
    larger: Option<Scalar>,
    larger_facing: Option<Scalar>,
    material_id: i32,
}

impl Sphere {
    #[verifier::type_invariant]
    pub closed spec fn ordered(self) -> bool {
        self.smaller matches Some(a) ==> (self.larger matches Some(b) ==> a@ <= b@)
    }

    /// The discriminant of the quadratic equation.
    pub closed spec fn discriminant(&self) -> Option<Scalar> {
        self.discriminant
    }

    /// The smaller solution of the quadratic equation.
    pub closed spec fn smaller(&self) -> Option<Scalar> {
        self.smaller
    }

    /// The inner product of the ray's direction and the outward normal at
    /// the smaller solution.
    pub closed spec fn smaller_facing(&self) -> Option<Scalar> {
        self.smaller_facing
    }

    /// The larger solution of the quadratic equation.
    pub closed spec fn larger(&self) -> Option<Scalar> {
        self.larger
    }

    /// The inner product of the ray's direction and the outward normal at
    /// the larger solution.
    pub closed spec fn larger_facing(&self) -> Option<Scalar> {
        self.larger_facing
    }

    /// The material of the sphere.
    pub closed spec fn material_id(&self) -> i32 {
        self.material_id
    }

    /// Whether the ray crosses the sphere's surface at parameter `t`: the
    /// discriminant is not negative and `t` is one of the two solutions.
    pub open spec fn offers(&self, t: Scalar) -> bool {
        &&& !(self.discriminant() matches Some(d) && d@ < 0)
        &&& self.smaller() == Some(t) || self.larger() == Some(t)
    }

    /// The inner product of the ray's direction and the outward normal
    /// where the ray crosses the sphere at parameter `t`: that of the
    /// smaller solution where `t` is the smaller solution, else that of the
    /// larger one.
    pub open spec fn facing_at(&self, t: Scalar) -> Option<Scalar> {
        if self.smaller() == Some(t) {
            self.smaller_facing()
        } else {
            self.larger_facing()
        }
    }

    /// The parameter of the hit within `interval`: the smaller solution where
    /// it lies strictly inside, else the larger one where that does, and
    /// nothing where the discriminant is negative or neither lies inside.
    pub open spec fn nearest(&self, interval: Interval) -> Option<Scalar> {
        if self.discriminant() matches Some(d) && d@ < 0 {
            None
        } else if self.smaller() matches Some(t) && interval.spec_surrounds(t) {
            self.smaller()
        } else if self.larger() matches Some(t) && interval.spec_surrounds(t) {
            self.larger()
        } else {
            None
        }
    }

    /// The sphere with the given discriminant, solutions and products:
    /// `facing0` belongs to the solution `t0` and `facing1` to `t1`. The two
    /// solutions may come in either order.
    pub fn new(
        discriminant: Option<Scalar>,
        t0: Option<Scalar>,
        facing0: Option<Scalar>,
        t1: Option<Scalar>,
        facing1: Option<Scalar>,
        material_id: i32,
    ) -> (sphere: Self)
        ensures
            sphere.ordered(),
            sphere.discriminant() == discriminant,
            sphere.material_id() == material_id,
            (t0 matches Some(a) && t1 matches Some(b) && b@ < a@) ==> {
                &&& sphere.smaller() == t1
                &&& sphere.smaller_facing() == facing1
                &&& sphere.larger() == t0
                &&& sphere.larger_facing() == facing0
            },
            !(t0 matches Some(a) && t1 matches Some(b) && b@ < a@) ==> {
                &&& sphere.smaller() == t0
                &&& sphere.smaller_facing() == facing0
                &&& sphere.larger() == t1
                &&& sphere.larger_facing() == facing1
            },
    {
        let swapped: bool = match (t0, t1) {
            (Some(a), Some(b)) => b.lt(a),
            _ => false,
        };
        if swapped {
            Sphere {
                discriminant,
                smaller: t1,
                smaller_facing: facing1,
                larger: t0,
                larger_facing: facing0,
                material_id,
            }
        } else {
            Sphere {
                discriminant,
                smaller: t0,
                smaller_facing: facing0,
                larger: t1,
                larger_facing: facing1,
                material_id,
            }
        }
    }

    /// The hit of the ray on the sphere within `interval`, if there is one,
    /// with the side of the surface that the ray meets there.
    pub fn hit(&self, interval: Interval) -> (hit: Option<HitResult>)
        ensures
            hit is Some <==> self.nearest(interval) is Some,
            hit matches Some(h) ==> {
                &&& Some(h.t) == self.nearest(interval)
                &&& h.front_face == Some(is_front_face(self.facing_at(h.t)))
                &&& h.normal_turned == turns_normal(self.facing_at(h.t))
                &&& h.material_id == self.material_id()
                &&& h.object == 0
            },
    {
        if is_negative(self.discriminant) {
            return None;
        }
        let mut found: Option<(Scalar, Option<Scalar>)> = None;
        if let Some(root) = self.smaller {
            if interval.surrounds(root) {
                found = Some((root, self.smaller_facing));
            }
        }
        if found.is_none() {
            if let Some(root) = self.larger {
                if interval.surrounds(root) {
                    found = Some((root, self.larger_facing));
                }
            }
        }
        match found {
            Some((t, facing)) => {
                let mut hit_result = HitResult {
                    t,
                    front_face: None,
                    normal_turned: false,
                    material_id: self.material_id,
                    object: 0,
                };
                hit_result.set_face_normal(facing);
                Some(hit_result)
            },
            None => None,
        }
    }

    /// A ray meets a sphere where it enters it: where the discriminant is
    /// not negative and the smaller solution lies strictly inside `interval`,
    /// the hit is at the smaller solution and not at the larger one, and the
    /// side that the ray meets is decided by the product at the smaller
    /// solution.
    pub proof fn lemma_hit_at_smaller(&self, interval: Interval)
        requires
            !(self.discriminant() matches Some(d) && d@ < 0),
            self.smaller() matches Some(t) && interval.spec_surrounds(t),
        ensures
            self.nearest(interval) == self.smaller(),
            self.nearest(interval) matches Some(t) && self.facing_at(t) == self.smaller_facing(),
    {
    }

    /// What [`Sphere::nearest`] picks is the least parameter inside
    /// `interval` at which the ray crosses the sphere.
    pub proof fn lemma_nearest_is_least(&self, interval: Interval)
        requires
            self.ordered(),
        ensures
            self.nearest(interval) matches Some(t) ==> self.offers(t) && interval.spec_surrounds(t),
            forall|u: Scalar| #[trigger]
                self.offers(u) && interval.spec_surrounds(u) ==> (self.nearest(
                    interval,
                ) matches Some(t) && t@ <= u@),
    {
    }
}

/// A plane as one ray meets it: the cosine `denominator` between the plane's
/// normal and the ray, the solution `t` of the ray's equation with the
/// plane, and the inner product `facing` of the ray's direction and the
/// plane's outward normal. A number that came out as NaN is `None`.
#[derive(Clone, Copy, Debug)]
pub struct Plane {
    pub denominator: Option<Scalar>,
    pub t: Option<Scalar>,
    pub facing: Option<Scalar>,
    pub material_id: i32,
}

impl Plane {
    /// Whether the ray runs along the plane: the size of the cosine is below
    /// the number with key `PARALLEL_KEY`.
    pub open spec fn parallel(&self) -> bool {
        self.denominator matches Some(d) && -PARALLEL_KEY < d@ < PARALLEL_KEY
    }

    /// Whether the ray crosses the plane at parameter `t`.
    pub open spec fn offers(&self, t: Scalar) -> bool {
        !self.parallel() && self.t == Some(t)
    }

    /// The parameter of the hit within `interval`: the solution, where the
    /// ray does not run along the plane and the solution lies strictly
    /// inside.
    pub open spec fn nearest(&self, interval: Interval) -> Option<Scalar> {
        if self.parallel() {
            None
        } else if self.t matches Some(t) && interval.spec_surrounds(t) {
            self.t
        } else {
            None
        }
    }

    /// The hit of the ray on the plane within `interval`, if there is one,
    /// with the side of the plane that the ray meets.
    pub fn hit(&self, interval: Interval) -> (hit: Option<HitResult>)
        ensures
            hit is Some <==> self.nearest(interval) is Some,
            hit matches Some(h) ==> {
                &&& Some(h.t) == self.nearest(interval)
                &&& h.front_face == Some(is_front_face(self.facing))
                &&& h.normal_turned == turns_normal(self.facing)
                &&& h.material_id == self.material_id
                &&& h.object == 0
            },
    {
        if is_within(self.denominator, parallel_bound()) {
            return None;
        }
        match self.t {
            Some(t) => {
                if interval.surrounds(t) {
                    let mut hit_result = HitResult {
                        t,
                        front_face: None,
                        normal_turned: false,
                        material_id: self.material_id,
                        object: 0,
                    };
                    hit_result.set_face_normal(self.facing);
                    Some(hit_result)
                } else {
                    None
                }
            },
            None => None,
        }
    }
}

/// The number with key `PARALLEL_KEY`.
fn parallel_bound() -> (scalar: Scalar)
    ensures
        scalar@ == PARALLEL_KEY,
{
    let bound = Scalar::from_bits(0x38D1_B717);
    bound.unwrap()
}

/// An object of the scene as one ray meets it.
#[derive(Clone, Copy, Debug)]
pub enum Hittable {
    Sphere(Sphere),
    Plane(Plane),
}

impl Hittable {
    /// Whether the ray crosses the object's surface at parameter `t`.
    pub open spec fn offers(&self, t: Scalar) -> bool {
        match self {
            Hittable::Sphere(sphere) => sphere.offers(t),
            Hittable::Plane(plane) => plane.offers(t),
        }
    }

    /// The parameter of the hit on the object within `interval`.
    pub open spec fn nearest(&self, interval: Interval) -> Option<Scalar> {
        match self {
            Hittable::Sphere(sphere) => sphere.nearest(interval),
            Hittable::Plane(plane) => plane.nearest(interval),
        }
    }

    /// The material of the object.
    pub open spec fn material_id(&self) -> i32 {
        match self {
            Hittable::Sphere(sphere) => sphere.material_id(),
            Hittable::Plane(plane) => plane.material_id,
        }
    }

    /// The inner product of the ray's direction and the object's outward
    /// normal where the ray crosses the object at parameter `t`.
    pub open spec fn facing_at(&self, t: Scalar) -> Option<Scalar> {
        match self {
            Hittable::Sphere(sphere) => sphere.facing_at(t),
            Hittable::Plane(plane) => plane.facing,
        }
    }

    /// Whether the object's numbers are in order; see [`Sphere::ordered`].
    pub open spec fn ordered(&self) -> bool {
        match self {
            Hittable::Sphere(sphere) => sphere.ordered(),
            Hittable::Plane(_) => true,
        }
    }

    /// The hit of the ray on the object within `interval`, if there is one,
    /// with the side of the surface that the ray meets there.
    pub fn hit(&self, interval: Interval) -> (hit: Option<HitResult>)
        ensures
            hit is Some <==> self.nearest(interval) is Some,
            hit matches Some(h) ==> {
                &&& Some(h.t) == self.nearest(interval)
                &&& h.front_face == Some(is_front_face(self.facing_at(h.t)))
                &&& h.normal_turned == turns_normal(self.facing_at(h.t))
                &&& h.material_id == self.material_id()
                &&& h.object == 0
            },
            self.ordered(),
    {
        match self {
            Hittable::Sphere(sphere) => {
                proof {
                    use_type_invariant(sphere);
                }
                sphere.hit(interval)
            },
            Hittable::Plane(plane) => plane.hit(interval),
        }
    }

    /// What [`Hittable::nearest`] picks is the least parameter inside
    /// `interval` at which the ray crosses the object.
    pub proof fn lemma_nearest_is_least(&self, interval: Interval)
        requires
            self.ordered(),
        ensures
            self.nearest(interval) matches Some(t) ==> self.offers(t) && interval.spec_surrounds(t),
            forall|u: Scalar| #[trigger]
                self.offers(u) && interval.spec_surrounds(u) ==> (self.nearest(
                    interval,
                ) matches Some(t) && t@ <= u@),
    {
        match self {
            Hittable::Sphere(sphere) => sphere.lemma_nearest_is_least(interval),
            Hittable::Plane(_) => {},
        }
    }
}

/// The objects of a scene as one ray meets them, in the order of the scene.
#[derive(Debug)]
pub struct HittableList {
    pub list: Vec<Hittable>,
}

impl Clone for HittableList {
    /// A list of the same objects in the same order.
    fn clone(&self) -> (copy: Self)
        ensures
            copy.list@ == self.list@,
    {
        let mut copy_list: Vec<Hittable> = Vec::new();
        let mut i: usize = 0;
        while i < self.list.len()
            invariant
                i <= self.list@.len(),
                copy_list@ == self.list@.subrange(0, i as int),
            decreases self.list@.len() - i,
        {
            copy_list.push(self.list[i]);
            i += 1;
        }
        Self { list: copy_list }
    }
}

impl HittableList {
    /// Whether the ray crosses object `j` at parameter `t` inside `interval`.
    pub open spec fn crosses(&self, interval: Interval, j: int, t: Scalar) -> bool {
        &&& 0 <= j < self.list@.len()
        &&& self.list@[j].offers(t)
        &&& interval.spec_surrounds(t)
    }

    /// A list without objects.
    pub fn new() -> (world: Self)
        ensures
            world.list@ == Seq::<Hittable>::empty(),
    {
        Self { list: Vec::new() }
    }

    /// Puts `hittable` behind the objects of the list.
    pub fn add_hittable(&mut self, hittable: Hittable)
        ensures
            final(self).list@ == old(self).list@.push(hittable),
    {
        self.list.push(hittable);
    }

    /// Takes every object out of the list.
    pub fn clear(&mut self)
        ensures
            final(self).list@ == Seq::<Hittable>::empty(),
    {
        self.list.clear();
    }

    /// Puts the objects of `other`, in their order, behind the objects of
    /// the list.
    pub fn merge(&mut self, other: Self)
        ensures
            final(self).list@ == old(self).list@ + other.list@,
    {
        let mut rest = other.list;
        self.list.append(&mut rest);
    }

    /// The nearest hit of the ray on the scene within `interval`.
    ///
    /// The result is `None` exactly if the ray crosses no object inside
    /// `interval`. Otherwise the hit is at the least parameter inside
    /// `interval` at which the ray crosses any object, and on the first
    /// object of the list that it crosses there; it reports the side of that
    /// object's surface that the ray meets, and that object's material.
    pub fn hit_all(&self, interval: Interval) -> (hit: Option<HitResult>)
        ensures
            hit is None <==> forall|j: int, t: Scalar| !#[trigger] self.crosses(interval, j, t),
            hit matches Some(h) ==> {
                &&& self.crosses(interval, h.object as int, h.t)
                &&& forall|j: int, t: Scalar| #[trigger]
                    self.crosses(interval, j, t) ==> h.t@ < t@ || (h.t@ == t@ && h.object <= j)
                &&& h.front_face == Some(
                    is_front_face(self.list@[h.object as int].facing_at(h.t)),
                )
                &&& h.normal_turned == turns_normal(self.list@[h.object as int].facing_at(h.t))
                &&& h.material_id == self.list@[h.object as int].material_id()
            },
    {
        let mut best: Option<HitResult> = None;
        let mut closest_so_far: Scalar = interval.max;
        let mut i: usize = 0;
        while i < self.list.len()
            invariant
                i <= self.list@.len(),
                best is None ==> closest_so_far == interval.max,
                best matches Some(h) ==> {
                    &&& closest_so_far == h.t
                    &&& h.object < i
                    &&& self.crosses(interval, h.object as int, h.t)
                    &&& h.front_face == Some(
                        is_front_face(self.list@[h.object as int].facing_at(h.t)),
                    )
                    &&& h.normal_turned == turns_normal(
                        self.list@[h.object as int].facing_at(h.t),
                    )
                    &&& h.material_id == self.list@[h.object as int].material_id()
                },
                forall|j: int, t: Scalar| #[trigger]
                    self.crosses(interval, j, t) && j < i ==> (best matches Some(h) && (h.t@ < t@
                        || (h.t@ == t@ && h.object <= j))),
            decreases self.list@.len() - i,
        {
            let object = &self.list[i];
            let reach = Interval { min: interval.min, max: closest_so_far };
            let found = object.hit(reach);
            proof {
                object.lemma_nearest_is_least(reach);
            }
            if let Some(mut temp) = found {
                temp.object = i;
                closest_so_far = temp.t;
                best = Some(temp);
            }
            i += 1;
        }
        best
    }
}

} // verus!
