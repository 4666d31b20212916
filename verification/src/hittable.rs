//! What a ray can hit, and the nearest of many such things.
use crate::interval::Interval;
use vstd::prelude::*;

verus! {

/// One meeting of a ray with a surface.
///
/// `t` is the rank of the ray parameter at which they meet. The point `p`, the
/// unit normal there, turned against the ray, and the material `mat` of the
/// surface belong to the caller; `front_face` tells whether the ray came from
/// outside.
#[derive(Clone, Copy, Debug, PartialEq)]
pub struct HitRecord<V, M> {
    pub p: V,
    pub normal: V,
    pub t: i64,
    pub front_face: bool,
    pub mat: M,
}

impl<V, M> HitRecord<V, M> {
    /// The normal turned against the ray, and whether the ray came from
    /// outside.
    ///
    /// `facing` is the rank of the dot product of the ray's direction with
    /// `outward_normal`, and `inward_normal` is `outward_normal` reversed.
    /// The ray came from outside where that product is negative, and the
    /// outward normal then stands against it already.
    pub fn set_face_normal(facing: i64, outward_normal: V, inward_normal: V) -> (oriented: (
        V,
        bool,
    ))
        ensures
            oriented.1 <==> facing < 0,
            oriented.0 == if facing < 0 {
                outward_normal
            } else {
                inward_normal
            },
    {
        let front_face = facing < 0;
        let normal = if front_face {
            outward_normal
        } else {
            inward_normal
        };
        (normal, front_face)
    }
}

/// A record, if it lies below `max`.
pub open spec fn below<V, M>(rec: Option<HitRecord<V, M>>, max: i64) -> Option<HitRecord<V, M>> {
    match rec {
        Some(found) if found.t < max => rec,
        _ => None,
    }
}

/// Something a ray can hit.
///
/// An implementor answers a query as a function of itself, the ray and the
/// window alone, and keeps the two laws below. A sphere that tries its lesser
/// root first and its greater root second does (see
/// [`crate::sphere::Chord`]), and so does a list of things that do.
pub trait Hittable {
    /// The rays that are cast at it.
    type Ray;

    /// The points and directions of its records.
    type Vector;

    /// The materials of its records.
    type Material;

    /// What a query with ray `r` and window `ray_t` yields.
    spec fn answer(&self, r: Self::Ray, ray_t: Interval) -> Option<
        HitRecord<Self::Vector, Self::Material>,
    >;

    /// An answer lies strictly inside the window that was asked for.
    proof fn answer_inside(&self, r: Self::Ray, ray_t: Interval)
        ensures
            self.answer(r, ray_t) matches Some(rec) ==> ray_t.surrounds(rec.t),
    ;

    /// Lowering the upper end of the window keeps the answer where it still
    /// lies inside, and yields nothing otherwise.
    proof fn answer_narrowed(&self, r: Self::Ray, ray_t: Interval, max: i64)
        requires
            max <= ray_t.max,
        ensures
            self.answer(r, ray_t.up_to(max)) == below(
                self.answer(r, ray_t),
                max,
            ),
    ;

    /// Where the ray `r` meets this within the window `ray_t`, if it does.
    fn hit(&self, r: &Self::Ray, ray_t: &Interval) -> (rec: Option<
        HitRecord<Self::Vector, Self::Material>,
    >)
        ensures
            rec == self.answer(*r, *ray_t),
    ;
}

/// The nearest of the answers of `objects` to a query with ray `r` and window
/// `ray_t`: the one of least `t`, and among equals that of the earliest
/// object.
pub open spec fn nearest<H: Hittable>(objects: Seq<H>, r: H::Ray, ray_t: Interval) -> Option<
    HitRecord<H::Vector, H::Material>,
>
    decreases objects.len(),
{
    if objects.len() == 0 {
        None
    } else {
        let before = nearest(objects.drop_last(), r, ray_t);
        match (before, objects.last().answer(r, ray_t)) {
            (Some(kept), Some(rec)) => if rec.t < kept.t {
                Some(rec)
            } else {
                before
            },
            (None, Some(rec)) => Some(rec),
            (_, None) => before,
        }
    }
}

/// The nearest answer is nothing where no object answers. Else it is the
/// answer of an object that no object undercuts, the earliest of those that
/// are as near.
pub proof fn nearest_is_least<H: Hittable>(objects: Seq<H>, r: H::Ray, ray_t: Interval)
    ensures
        nearest(objects, r, ray_t) is None <==> forall|i: int|
            0 <= i < objects.len() ==> (#[trigger] objects[i].answer(r, ray_t)) is None,
        nearest(objects, r, ray_t) matches Some(rec) ==> exists|i: int|
            0 <= i < objects.len() && #[trigger] objects[i].answer(r, ray_t) == Some(rec)
                && forall|j: int|
                0 <= j < i ==> ((#[trigger] objects[j].answer(r, ray_t)) matches Some(other)
                    ==> rec.t < other.t),
        nearest(objects, r, ray_t) matches Some(rec) ==> forall|j: int|
            0 <= j < objects.len() ==> ((#[trigger] objects[j].answer(r, ray_t)) matches Some(
                other,
            ) ==> rec.t <= other.t),
    decreases objects.len(),
{
    if objects.len() > 0 {
        let front = objects.drop_last();
        nearest_is_least(front, r, ray_t);
        assert forall|i: int| 0 <= i < front.len() implies front[i] == objects[i] by {}
    }
}

/// The nearest answer lies strictly inside the window.
pub proof fn nearest_inside<H: Hittable>(objects: Seq<H>, r: H::Ray, ray_t: Interval)
    ensures
        nearest(objects, r, ray_t) matches Some(rec) ==> ray_t.surrounds(rec.t),
    decreases objects.len(),
{
    if objects.len() > 0 {
        nearest_inside(objects.drop_last(), r, ray_t);
        objects.last().answer_inside(r, ray_t);
    }
}

/// Lowering the upper end of the window keeps the nearest answer where it
/// still lies inside, and yields nothing otherwise.
pub proof fn nearest_narrowed<H: Hittable>(objects: Seq<H>, r: H::Ray, ray_t: Interval, max: i64)
    requires
        max <= ray_t.max,
    ensures
        nearest(objects, r, ray_t.up_to(max)) == below(
            nearest(objects, r, ray_t),
            max,
        ),
    decreases objects.len(),
{
    if objects.len() > 0 {
        nearest_narrowed(objects.drop_last(), r, ray_t, max);
        objects.last().answer_narrowed(r, ray_t, max);
    }
}

/// The things of a scene, in the order in which they were added.
pub struct HittableList<H> {
    list: Vec<H>,
}

impl<H> View for HittableList<H> {
    type V = Seq<H>;

    closed spec fn view(&self) -> Seq<H> {
        self.list@
    }
}

impl<H> Default for HittableList<H> {
    /// The empty scene.
    fn default() -> (scene: Self)
        ensures
            scene@ == Seq::<H>::empty(),
    {
        HittableList { list: Vec::new() }
    }
}

impl<H> HittableList<H> {
    /// Adds `object` behind the others.
    pub fn add(&mut self, object: H)
        ensures
            final(self)@ == old(self)@.push(object),
    {
        self.list.push(object);
    }
}

impl<H: Hittable> Hittable for HittableList<H> {
    type Ray = H::Ray;

    type Vector = H::Vector;

    type Material = H::Material;

    open spec fn answer(&self, r: H::Ray, ray_t: Interval) -> Option<
        HitRecord<H::Vector, H::Material>,
    > {
        nearest(self@, r, ray_t)
    }

    proof fn answer_inside(&self, r: H::Ray, ray_t: Interval) {
        nearest_inside(self@, r, ray_t);
    }

    proof fn answer_narrowed(&self, r: H::Ray, ray_t: Interval, max: i64) {
        nearest_narrowed(self@, r, ray_t, max);
    }

    /// The nearest meeting of the ray `r` with a thing of the scene within
    /// the window `ray_t`: nothing where nothing of the scene is met, and else
    /// the record of the thing that is met at the least `t`, the earliest such
    /// thing where several are. Each thing is asked only for what lies nearer
    /// than the nearest found before it.
    fn hit(&self, r: &H::Ray, ray_t: &Interval) -> (rec: Option<HitRecord<H::Vector, H::Material>>)
        ensures
            rec is None <==> forall|i: int|
                0 <= i < self@.len() ==> (#[trigger] self@[i].answer(*r, *ray_t)) is None,
            rec matches Some(found) ==> ray_t.surrounds(found.t),
            rec matches Some(found) ==> exists|i: int|
                0 <= i < self@.len() && #[trigger] self@[i].answer(*r, *ray_t) == rec
                    && forall|j: int|
                    0 <= j < i ==> ((#[trigger] self@[j].answer(*r, *ray_t)) matches Some(other)
                        ==> found.t < other.t),
            rec matches Some(found) ==> forall|j: int|
                0 <= j < self@.len() ==> ((#[trigger] self@[j].answer(*r, *ray_t)) matches Some(
                    other,
                ) ==> found.t <= other.t),
    {
        let mut hit_anything: Option<HitRecord<H::Vector, H::Material>> = None;
        let mut closest_so_far: i64 = ray_t.max;
        let mut i: usize = 0;
        while i < self.list.len()
            invariant
                i <= self.list.len(),
                hit_anything == nearest(self@.take(i as int), *r, *ray_t),
                closest_so_far == match hit_anything {
                    Some(found) => found.t,
                    None => ray_t.max,
                },
            decreases self.list.len() - i,
        {
            let window = ray_t.up_to(closest_so_far);
            let found = self.list[i].hit(r, &window);
            proof {
                let seen = self@.take(i as int);
                let next = self@.take(i + 1);
                assert(next.drop_last() == seen);
                nearest_inside(seen, *r, *ray_t);
                self@[i as int].answer_inside(*r, *ray_t);
                self@[i as int].answer_narrowed(*r, *ray_t, closest_so_far);
            }
            match found {
                Some(rec) => {
                    closest_so_far = rec.t;
                    hit_anything = Some(rec);
                },
                None => {},
            }
            i += 1;
        }
        proof {
            assert(self@.take(i as int) == self@);
            nearest_is_least(self@, *r, *ray_t);
            nearest_inside(self@, *r, *ray_t);
        }
        hit_anything
    }
}

} // verus!
