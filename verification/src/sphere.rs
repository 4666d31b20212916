//! Spheres, and where a ray meets one.
//!
//! A ray crosses the surface of a sphere at up to two parameters, the roots
//! of a quadratic equation. Setting that equation up and solving it is the
//! caller's arithmetic. Whether it has roots, which of them a query takes, and
//! which way the normal is turned there, is decided here.
use crate::hittable::{below, HitRecord};
use crate::interval::Interval;
use vstd::prelude::*;

verus! {

/// What a ray finds at one root.
#[derive(Clone, Copy, Debug, PartialEq)]
pub struct Crossing<V> {
    /// The rank of the root.
    pub t: i64,
    /// The point of the ray at the root.
    pub p: V,
    /// The unit normal of the sphere at that point, away from the centre.
    pub outward_normal: V,
    /// The same normal reversed.
    pub inward_normal: V,
    /// The rank of the dot product of the ray's direction with the outward
    /// normal.
    pub facing: i64,
}

impl<V> Crossing<V> {
    /// The record of this crossing on a surface of material `mat`: the ray
    /// came from outside where `facing` is negative, and the normal of the
    /// record is the one turned against the ray.
    pub open spec fn record<M>(self, mat: M) -> HitRecord<V, M> {
        HitRecord {
            p: self.p,
            normal: if self.facing < 0 {
                self.outward_normal
            } else {
                self.inward_normal
            },
            t: self.t,
            front_face: self.facing < 0,
            mat,
        }
    }

    /// The record of this crossing on a surface of material `mat`.
    pub fn into_record<M>(self, mat: M) -> (rec: HitRecord<V, M>)
        ensures
            rec == self.record(mat),
    {
        let (normal, front_face) = HitRecord::<V, M>::set_face_normal(
            self.facing,
            self.outward_normal,
            self.inward_normal,
        );
        HitRecord { p: self.p, normal, t: self.t, front_face, mat }
    }
}

/// The chord that a ray cuts through a sphere: its two crossings, and the
/// material of the sphere.
#[derive(Clone, Copy, Debug, PartialEq)]
pub struct Chord<V, M> {
    pub near: Crossing<V>,
    pub far: Crossing<V>,
    pub mat: M,
}

impl<V, M> Chord<V, M> {
    /// The crossing at the lesser root: `near`, where the two stand in order.
    pub open spec fn first(self) -> Crossing<V> {
        if self.near.t <= self.far.t {
            self.near
        } else {
            self.far
        }
    }

    /// The crossing at the greater root: `far`, where the two stand in order.
    pub open spec fn second(self) -> Crossing<V> {
        if self.near.t <= self.far.t {
            self.far
        } else {
            self.near
        }
    }

    /// What a query with window `ray_t` yields: the record of the crossing at
    /// the lesser root where that root lies strictly inside the window, else
    /// that of the crossing at the greater root where that one does, else
    /// nothing.
    pub open spec fn answer(self, ray_t: Interval) -> Option<HitRecord<V, M>> {
        if ray_t.surrounds(self.first().t) {
            Some(self.first().record(self.mat))
        } else if ray_t.surrounds(self.second().t) {
            Some(self.second().record(self.mat))
        } else {
            None
        }
    }

    /// Where the ray meets the sphere within the window `ray_t`, if it does:
    /// at the least root that lies strictly inside the window.
    pub fn hit(self, ray_t: &Interval) -> (rec: Option<HitRecord<V, M>>)
        ensures
            rec == self.answer(*ray_t),
            rec is None <==> !ray_t.surrounds(self.near.t) && !ray_t.surrounds(self.far.t),
            rec matches Some(found) ==> {
                &&& ray_t.surrounds(found.t)
                &&& ray_t.surrounds(self.near.t) ==> found.t <= self.near.t
                &&& ray_t.surrounds(self.far.t) ==> found.t <= self.far.t
            },
    {
        let (first, second) = if self.near.t <= self.far.t {
            (self.near, self.far)
        } else {
            (self.far, self.near)
        };
        if ray_t.surrounds(first.t) {
            Some(first.into_record(self.mat))
        } else if ray_t.surrounds(second.t) {
            Some(second.into_record(self.mat))
        } else {
            None
        }
    }

    /// The record of a chord is that of one of its crossings, and lies
    /// strictly inside the window, at the least root that does; there is none
    /// only where neither root lies inside.
    pub proof fn answer_is_least(self, ray_t: Interval)
        ensures
            self.answer(ray_t) is None <==> !ray_t.surrounds(self.near.t) && !ray_t.surrounds(
                self.far.t,
            ),
            self.answer(ray_t) matches Some(rec) ==> {
                &&& ray_t.surrounds(rec.t)
                &&& rec == self.near.record(self.mat) || rec == self.far.record(self.mat)
                &&& ray_t.surrounds(self.near.t) ==> rec.t <= self.near.t
                &&& ray_t.surrounds(self.far.t) ==> rec.t <= self.far.t
            },
    {
    }

    /// Lowering the upper end of the window keeps the record of a chord where
    /// it still lies inside, and yields nothing otherwise: a chord keeps the
    /// law of narrowed windows that [`crate::hittable::Hittable`] asks of its
    /// implementors.
    pub proof fn answer_narrowed(self, ray_t: Interval, max: i64)
        requires
            max <= ray_t.max,
        ensures
            self.answer(ray_t.up_to(max)) == below(self.answer(ray_t), max),
    {
    }
}

/// A sphere of a scene: its centre, the rank of its radius, and its
/// material.
#[derive(Clone, Copy, Debug, PartialEq)]
pub struct Sphere<V, M> {
    pub center: V,
    pub radius: i64,
    pub mat: M,
}

impl<V, M> Sphere<V, M> {
    /// Whether the sphere is one: its radius is positive.
    pub open spec fn well_formed(&self) -> bool {
        self.radius > 0
    }

    /// The sphere about `center` with a radius of rank `radius`, of material
    /// `mat`.
    pub fn new(center: V, radius: i64, mat: M) -> (sphere: Self)
        requires
            radius > 0,
        ensures
            sphere.center == center,
            sphere.radius == radius,
            sphere.mat == mat,
            sphere.well_formed(),
    {
        Sphere { center, radius, mat }
    }
}

impl<V, M: Copy> Sphere<V, M> {
    /// Where a ray meets the sphere within the window `ray_t`, if it does.
    ///
    /// `discriminant` is the rank of the discriminant of the quadratic
    /// equation of the ray and the sphere. Where it is negative the equation
    /// has no roots: the ray passes the sphere by, and the roots are not
    /// asked for. Else `crossings` works out what the ray finds at the two
    /// roots, and the chord between them is met as [`Chord::hit`] tells.
    pub fn hit<F>(&self, ray_t: &Interval, discriminant: i64, crossings: F) -> (rec: Option<
        HitRecord<V, M>,
    >) where F: FnOnce() -> (Crossing<V>, Crossing<V>)
        requires
            discriminant >= 0 ==> call_requires(crossings, ()),
        ensures
            discriminant < 0 ==> rec is None,
            discriminant >= 0 ==> exists|near: Crossing<V>, far: Crossing<V>|
                call_ensures(crossings, (), (near, far)) && rec == (Chord {
                    near,
                    far,
                    mat: self.mat,
                }).answer(*ray_t),
    {
        if discriminant < 0 {
            return None;
        }
        let (near, far) = crossings();
        let chord = Chord { near, far, mat: self.mat };
        chord.hit(ray_t)
    }
}

} // verus!
