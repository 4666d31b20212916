use std::cell::RefCell;
use std::rc::Rc;

use raytracer::hittable::{HitRecord, Hittable, HittableList};
use raytracer::interval::Interval;

/// The windows that the walls of a scene were asked for, each with the tag of
/// the wall.
type Log = Rc<RefCell<Vec<(u8, Interval)>>>;

/// A surface that every ray meets at one fixed rank, and that writes down the
/// windows it is asked for.
struct Wall {
    at: i64,
    tag: u8,
    log: Log,
}

impl Wall {
    fn new(at: i64, tag: u8) -> Self {
        Wall { at, tag, log: Log::default() }
    }
}

impl Hittable for Wall {
    type Ray = ();
    type Vector = ();
    type Material = u8;

    // What the verifier reads of an implementor; nothing calls it.
    fn answer(&self, _r: (), ray_t: Interval) -> Option<HitRecord<(), u8>> {
        self.hit(&(), &ray_t)
    }

    fn answer_inside(&self, _r: (), _ray_t: Interval) {}

    fn answer_narrowed(&self, _r: (), _ray_t: Interval, _max: i64) {}

    fn hit(&self, _r: &(), ray_t: &Interval) -> Option<HitRecord<(), u8>> {
        self.log.borrow_mut().push((self.tag, *ray_t));
        if ray_t.surrounds(self.at) {
            Some(HitRecord { p: (), normal: (), t: self.at, front_face: true, mat: self.tag })
        } else {
            None
        }
    }
}

fn scene(walls: &[(i64, u8)]) -> HittableList<Wall> {
    let mut world = HittableList::default();
    for &(at, tag) in walls {
        world.add(Wall::new(at, tag));
    }
    world
}

fn nearest(walls: &[(i64, u8)], min: i64, max: i64) -> Option<(i64, u8)> {
    scene(walls).hit(&(), &Interval::new(min, max)).map(|rec| (rec.t, rec.mat))
}

#[test]
fn an_empty_scene_meets_no_ray() {
    let world: HittableList<Wall> = HittableList::default();
    assert!(world.hit(&(), &Interval::new(0, 100)).is_none());
    assert!(world.hit(&(), &Interval::new(i64::MIN, i64::MAX)).is_none());
}

#[test]
fn a_single_wall_is_met_inside_the_window_only() {
    assert_eq!(nearest(&[(5, 1)], 0, 10), Some((5, 1)));
    assert_eq!(nearest(&[(5, 1)], 5, 10), None);
    assert_eq!(nearest(&[(5, 1)], 0, 5), None);
    assert_eq!(nearest(&[(5, 1)], 4, 6), Some((5, 1)));
    assert_eq!(nearest(&[(5, 1)], 6, 10), None);
}

#[test]
fn nearest_of_two_walls() {
    assert_eq!(nearest(&[(7, 1), (5, 2)], 0, 10), Some((5, 2)));
    assert_eq!(nearest(&[(5, 2), (7, 1)], 0, 10), Some((5, 2)));
}

#[test]
fn nearest_of_many_walls_whatever_their_order() {
    let walls = [(40, 1), (12, 2), (33, 3), (9, 4), (27, 5), (9000, 6)];
    for turn in 0..walls.len() {
        let mut turned = walls.to_vec();
        turned.rotate_left(turn);
        assert_eq!(nearest(&turned, 0, 10_000), Some((9, 4)));
        assert_eq!(nearest(&turned, 9, 10_000), Some((12, 2)));
        assert_eq!(nearest(&turned, 33, 10_000), Some((40, 1)));
        assert_eq!(nearest(&turned, 40, 9000), None);
    }
}

#[test]
fn of_walls_at_one_rank_the_first_is_met() {
    assert_eq!(nearest(&[(5, 1), (5, 2), (5, 3)], 0, 10), Some((5, 1)));
    assert_eq!(nearest(&[(8, 9), (5, 2), (5, 3)], 0, 10), Some((5, 2)));
}

#[test]
fn walls_behind_the_window_are_passed_over() {
    assert_eq!(nearest(&[(-4, 1), (0, 2), (3, 3)], 0, 10), Some((3, 3)));
    assert_eq!(nearest(&[(-4, 1), (0, 2)], 0, 10), None);
    assert_eq!(nearest(&[(10, 1), (11, 2)], 0, 10), None);
}

#[test]
fn the_record_of_the_nearest_thing_comes_back_whole() {
    let rec = scene(&[(7, 1), (5, 2)]).hit(&(), &Interval::new(0, 10)).unwrap();
    assert_eq!(rec, HitRecord { p: (), normal: (), t: 5, front_face: true, mat: 2 });
}

#[test]
fn each_thing_is_asked_up_to_the_nearest_found_before_it() {
    let log = Log::default();
    let mut world = HittableList::default();
    for (at, tag) in [(50, 1), (70, 2), (20, 3), (30, 4), (5, 5)] {
        world.add(Wall { at, tag, log: log.clone() });
    }
    let rec = world.hit(&(), &Interval::new(10, 100)).unwrap();
    assert_eq!((rec.t, rec.mat), (20, 3));
    assert_eq!(
        *log.borrow(),
        vec![
            (1, Interval::new(10, 100)),
            (2, Interval::new(10, 50)),
            (3, Interval::new(10, 50)),
            (4, Interval::new(10, 20)),
            (5, Interval::new(10, 20)),
        ]
    );
}

#[test]
fn a_scene_of_scenes_meets_the_nearest_of_all() {
    let mut world = HittableList::default();
    world.add(scene(&[(60, 1), (45, 2)]));
    world.add(scene(&[]));
    world.add(scene(&[(44, 3), (80, 4)]));
    let rec = world.hit(&(), &Interval::new(0, 100)).unwrap();
    assert_eq!((rec.t, rec.mat), (44, 3));
    assert!(world.hit(&(), &Interval::new(0, 44)).is_none());
}

#[test]
fn add_puts_things_behind_the_others() {
    let mut world = HittableList::default();
    world.add(Wall::new(5, 1));
    assert_eq!(world.hit(&(), &Interval::new(0, 10)).map(|rec| rec.mat), Some(1));
    world.add(Wall::new(5, 2));
    assert_eq!(world.hit(&(), &Interval::new(0, 10)).map(|rec| rec.mat), Some(1));
    world.add(Wall::new(4, 3));
    assert_eq!(world.hit(&(), &Interval::new(0, 10)).map(|rec| rec.mat), Some(3));
}

#[test]
fn the_normal_is_turned_against_the_ray() {
    assert_eq!(HitRecord::<&str, u8>::set_face_normal(-3, "out", "in"), ("out", true));
    assert_eq!(HitRecord::<&str, u8>::set_face_normal(3, "out", "in"), ("in", false));
    assert_eq!(HitRecord::<&str, u8>::set_face_normal(0, "out", "in"), ("in", false));
    assert_eq!(HitRecord::<&str, u8>::set_face_normal(-1, "out", "in"), ("out", true));
    assert_eq!(HitRecord::<&str, u8>::set_face_normal(i64::MIN, "out", "in"), ("out", true));
    assert_eq!(HitRecord::<&str, u8>::set_face_normal(i64::MAX, "out", "in"), ("in", false));
}
