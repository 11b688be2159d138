use glam::Vec3;
use raytracer::interval::Interval;
use raytracer::material::MATERIAL_DIELECTRIC;
use raytracer::material::MATERIAL_LAMBERTIAN;
use raytracer::material::MATERIAL_METAL;
use raytracer::math::Scalar;
use raytracer::ray::HitResult;
use raytracer::ray::Hittable;
use raytracer::ray::HittableList;
use raytracer::ray::Plane;
use raytracer::ray::Sphere;
use raytracer::ray::PARALLEL_KEY;

fn scalar(x: f32) -> Option<Scalar> {
    Scalar::from_bits(x.to_bits())
}

fn number(s: Scalar) -> f32 {
    f32::from_bits(s.to_bits())
}

fn ray_range() -> Interval {
    Interval::new(scalar(0.0001).unwrap(), Scalar::infinity())
}

fn range(min: f32, max: f32) -> Interval {
    Interval::new(scalar(min).unwrap(), scalar(max).unwrap())
}

/// The outward normal of a sphere where the ray is at parameter `t`.
fn sphere_normal(origin: Vec3, direction: Vec3, center: Vec3, radius: f32, t: f32) -> Vec3 {
    ((origin + direction * t) - center) / radius
}

/// The quadratic equation of the ray `origin + t * direction` with a sphere,
/// and the ray's direction times the outward normal at each solution.
fn meet_sphere(origin: Vec3, direction: Vec3, center: Vec3, radius: f32, material: i32) -> Sphere {
    let oc = origin - center;
    let a = direction.length_squared();
    let half_b = oc.dot(direction);
    let c = oc.length_squared() - radius * radius;
    let discriminant = half_b * half_b - a * c;
    let root = discriminant.sqrt();
    let t0 = (-half_b - root) / a;
    let t1 = (-half_b + root) / a;
    let facing0 = direction.dot(sphere_normal(origin, direction, center, radius, t0));
    let facing1 = direction.dot(sphere_normal(origin, direction, center, radius, t1));
    Sphere::new(
        scalar(discriminant),
        scalar(t0),
        scalar(facing0),
        scalar(t1),
        scalar(facing1),
        material,
    )
}

/// The equation of the ray `origin + t * direction` with a plane, and the
/// ray's direction times the plane's normal.
fn meet_plane(origin: Vec3, direction: Vec3, center: Vec3, normal: Vec3, material: i32) -> Plane {
    let unit_normal = normal.normalize();
    let denominator = unit_normal.dot(direction.normalize());
    let t = (center - origin).dot(unit_normal) / denominator;
    Plane {
        denominator: scalar(denominator),
        t: scalar(t),
        facing: scalar(direction.dot(normal)),
        material_id: material,
    }
}

/// A sphere with the given numbers, entered at `t0` and left at `t1`.
fn roots(discriminant: f32, t0: f32, t1: f32, material: i32) -> Sphere {
    Sphere::new(scalar(discriminant), scalar(t0), scalar(-1.0), scalar(t1), scalar(1.0), material)
}

/// A plane with the given numbers, met from the front.
fn plane(denominator: f32, t: f32, material: i32) -> Plane {
    Plane { denominator: scalar(denominator), t: scalar(t), facing: scalar(-1.0), material_id: material }
}

/// The normal of a hit: the outward normal, turned round where the hit says so.
fn hit_normal(outward: Vec3, hit: &HitResult) -> Vec3 {
    if hit.normal_turned {
        -outward
    } else {
        outward
    }
}

#[test]
fn ray_at_the_middle_of_a_sphere_hits_its_near_side() {
    for radius in [0.25f32, 0.5, 1.0, 2.0, 4.0] {
        let origin = Vec3::new(0.0, 0.0, 5.0);
        let direction = (Vec3::ZERO - origin).normalize();
        let sphere = meet_sphere(origin, direction, Vec3::ZERO, radius, MATERIAL_LAMBERTIAN);
        let hit = sphere.hit(ray_range()).unwrap();
        assert_eq!(number(hit.t), 5.0 - radius);
        assert_eq!(hit.front_face, Some(true));
        assert!(!hit.normal_turned);
        assert_eq!(hit.material_id, MATERIAL_LAMBERTIAN);
        let outward = sphere_normal(origin, direction, Vec3::ZERO, radius, number(hit.t));
        assert_eq!(hit_normal(outward, &hit), Vec3::new(0.0, 0.0, 1.0));

        let mut world = HittableList::new();
        world.add_hittable(Hittable::Sphere(sphere));
        let found = world.hit_all(ray_range()).unwrap();
        assert_eq!(number(found.t), 5.0 - radius);
        assert_eq!(found.object, 0);
        assert_eq!(found.front_face, Some(true));
        assert!(!found.normal_turned);
    }
}

#[test]
fn unit_sphere_is_hit_at_four_from_five_away() {
    let origin = Vec3::new(0.0, 0.0, 5.0);
    let direction = Vec3::new(0.0, 0.0, -1.0);
    let sphere = meet_sphere(origin, direction, Vec3::ZERO, 1.0, MATERIAL_METAL);
    let hit = sphere.hit(ray_range()).unwrap();
    assert_eq!(number(hit.t), 4.0);
    assert_eq!(hit.front_face, Some(true));
    assert!(!hit.normal_turned);
    assert_eq!(origin + direction * number(hit.t), Vec3::new(0.0, 0.0, 1.0));
    let outward = sphere_normal(origin, direction, Vec3::ZERO, 1.0, number(hit.t));
    assert_eq!(hit_normal(outward, &hit), Vec3::new(0.0, 0.0, 1.0));
}

#[test]
fn ray_from_inside_a_sphere_hits_its_far_side_from_behind() {
    let origin = Vec3::ZERO;
    let direction = Vec3::new(0.0, 0.0, -1.0);
    let sphere = meet_sphere(origin, direction, Vec3::ZERO, 1.0, MATERIAL_DIELECTRIC);
    let hit = sphere.hit(ray_range()).unwrap();
    assert_eq!(number(hit.t), 1.0);
    assert_eq!(hit.front_face, Some(false));
    assert!(hit.normal_turned);
    assert_eq!(hit.material_id, MATERIAL_DIELECTRIC);
    assert_eq!(origin + direction * number(hit.t), Vec3::new(0.0, 0.0, -1.0));
    let outward = sphere_normal(origin, direction, Vec3::ZERO, 1.0, number(hit.t));
    assert_eq!(outward, Vec3::new(0.0, 0.0, -1.0));
    assert_eq!(hit_normal(outward, &hit), Vec3::new(0.0, 0.0, 1.0));

    let wide = meet_sphere(origin, direction, Vec3::ZERO, 2.0, MATERIAL_DIELECTRIC);
    let hit = wide.hit(ray_range()).unwrap();
    assert_eq!(number(hit.t), 2.0);
    assert_eq!(hit.front_face, Some(false));
}

#[test]
fn ray_past_a_sphere_misses() {
    let origin = Vec3::new(0.0, 3.0, 5.0);
    let direction = Vec3::new(0.0, 0.0, -1.0);
    let sphere = meet_sphere(origin, direction, Vec3::ZERO, 1.0, 0);
    assert!(sphere.hit(ray_range()).is_none());
    assert!(sphere.hit(Interval::universe()).is_none());
}

#[test]
fn sphere_behind_the_ray_misses() {
    let origin = Vec3::new(0.0, 0.0, 5.0);
    let direction = Vec3::new(0.0, 0.0, 1.0);
    let sphere = meet_sphere(origin, direction, Vec3::ZERO, 1.0, 0);
    assert!(sphere.hit(ray_range()).is_none());
    let hit = sphere.hit(Interval::universe()).unwrap();
    assert_eq!(number(hit.t), -6.0);
    assert_eq!(hit.front_face, Some(true));
}

#[test]
fn sphere_roots_are_tried_smaller_first() {
    let sphere = roots(1.0, 3.0, 7.0, 2);
    assert_eq!(number(sphere.hit(range(0.0, 10.0)).unwrap().t), 3.0);
    assert_eq!(number(sphere.hit(range(3.0, 10.0)).unwrap().t), 7.0);
    assert_eq!(number(sphere.hit(range(2.0, 5.0)).unwrap().t), 3.0);
    assert_eq!(number(sphere.hit(range(4.0, 8.0)).unwrap().t), 7.0);
    assert!(sphere.hit(range(4.0, 6.0)).is_none());
    assert!(sphere.hit(range(3.0, 7.0)).is_none());
    assert!(sphere.hit(range(7.0, 100.0)).is_none());
    assert!(sphere.hit(range(0.0, 3.0)).is_none());
    assert!(sphere.hit(Interval::empty()).is_none());
}

#[test]
fn each_sphere_root_has_its_own_face() {
    let sphere = roots(1.0, 3.0, 7.0, 2);
    let entering = sphere.hit(range(0.0, 10.0)).unwrap();
    assert_eq!(number(entering.t), 3.0);
    assert_eq!(entering.front_face, Some(true));
    assert!(!entering.normal_turned);
    let leaving = sphere.hit(range(3.0, 10.0)).unwrap();
    assert_eq!(number(leaving.t), 7.0);
    assert_eq!(leaving.front_face, Some(false));
    assert!(leaving.normal_turned);
}

#[test]
fn sphere_roots_may_come_in_either_order() {
    let sphere =
        Sphere::new(scalar(1.0), scalar(7.0), scalar(1.0), scalar(3.0), scalar(-1.0), 2);
    let entering = sphere.hit(range(0.0, 10.0)).unwrap();
    assert_eq!(number(entering.t), 3.0);
    assert_eq!(entering.front_face, Some(true));
    let leaving = sphere.hit(range(3.0, 10.0)).unwrap();
    assert_eq!(number(leaving.t), 7.0);
    assert_eq!(leaving.front_face, Some(false));

    let touching = roots(0.0, 4.0, 4.0, 2);
    let hit = touching.hit(range(0.0, 10.0)).unwrap();
    assert_eq!(number(hit.t), 4.0);
    assert_eq!(hit.front_face, Some(true));
}

#[test]
fn sphere_with_negative_discriminant_misses() {
    let sphere = roots(-0.25, 3.0, 7.0, 2);
    assert!(sphere.hit(range(0.0, 10.0)).is_none());
    let sphere = roots(-1.0e-45, 3.0, 7.0, 2);
    assert!(sphere.hit(range(0.0, 10.0)).is_none());
    let sphere = roots(-0.0, 3.0, 7.0, 2);
    assert_eq!(number(sphere.hit(range(0.0, 10.0)).unwrap().t), 3.0);
}

#[test]
fn sphere_with_missing_numbers() {
    let sphere = Sphere::new(None, None, None, None, None, 2);
    assert!(sphere.hit(Interval::universe()).is_none());
    let sphere = Sphere::new(scalar(1.0), None, None, scalar(7.0), scalar(1.0), 2);
    let hit = sphere.hit(range(0.0, 10.0)).unwrap();
    assert_eq!(number(hit.t), 7.0);
    assert_eq!(hit.front_face, Some(false));
    let sphere = Sphere::new(scalar(1.0), scalar(3.0), scalar(-1.0), None, None, 2);
    assert_eq!(number(sphere.hit(range(0.0, 10.0)).unwrap().t), 3.0);
    assert!(sphere.hit(range(3.0, 10.0)).is_none());
    let sphere = Sphere::new(None, scalar(3.0), None, scalar(7.0), None, 2);
    let hit = sphere.hit(range(0.0, 10.0)).unwrap();
    assert_eq!(number(hit.t), 3.0);
    assert_eq!(hit.front_face, Some(false));
    assert!(!hit.normal_turned);
}

#[test]
fn degenerate_ray_meets_no_sphere() {
    let origin = Vec3::new(0.0, 0.0, 5.0);
    let direction = Vec3::ZERO.normalize();
    let sphere = meet_sphere(origin, direction, Vec3::ZERO, 1.0, 0);
    assert!(sphere.hit(ray_range()).is_none());
    assert!(sphere.hit(Interval::universe()).is_none());
}

#[test]
fn plane_is_hit_where_the_ray_crosses_it() {
    let origin = Vec3::new(0.0, 2.0, 0.0);
    let direction = Vec3::new(0.0, -1.0, 0.0);
    let normal = Vec3::new(0.0, 3.0, 0.0);
    let plane = meet_plane(origin, direction, Vec3::ZERO, normal, MATERIAL_METAL);
    let hit = plane.hit(ray_range()).unwrap();
    assert_eq!(number(hit.t), 2.0);
    assert_eq!(hit.material_id, MATERIAL_METAL);
    assert_eq!(hit.front_face, Some(true));
    assert!(!hit.normal_turned);
    assert_eq!(hit.object, 0);
    assert_eq!(hit_normal(normal, &hit), normal);
    assert!(plane.hit(range(0.0, 2.0)).is_none());
    assert!(plane.hit(range(2.0, 9.0)).is_none());
    assert_eq!(number(plane.hit(range(1.0, 3.0)).unwrap().t), 2.0);
}

#[test]
fn plane_seen_from_below_shows_its_back() {
    let origin = Vec3::new(0.0, -2.0, 0.0);
    let direction = Vec3::new(0.0, 1.0, 0.0);
    let normal = Vec3::new(0.0, 1.0, 0.0);
    let plane = meet_plane(origin, direction, Vec3::ZERO, normal, 0);
    let hit = plane.hit(ray_range()).unwrap();
    assert_eq!(number(hit.t), 2.0);
    assert_eq!(hit.front_face, Some(false));
    assert!(hit.normal_turned);
    assert_eq!(origin + direction * number(hit.t), Vec3::ZERO);
    assert_eq!(hit_normal(normal, &hit), Vec3::new(0.0, -1.0, 0.0));
}

#[test]
fn ray_along_a_plane_misses() {
    let origin = Vec3::new(0.0, 2.0, 0.0);
    let direction = Vec3::new(1.0, 0.0, 0.0);
    let grazed = meet_plane(origin, direction, Vec3::ZERO, Vec3::new(0.0, 1.0, 0.0), 0);
    assert!(grazed.hit(Interval::universe()).is_none());

    assert_eq!(scalar(1.0e-4).unwrap().key(), PARALLEL_KEY);
    assert_eq!(PARALLEL_KEY, 953267991);
    assert!(plane(0.00009999, 5.0, 0).hit(range(0.0, 10.0)).is_none());
    assert!(plane(-0.00009999, 5.0, 0).hit(range(0.0, 10.0)).is_none());
    assert_eq!(number(plane(0.0001, 5.0, 0).hit(range(0.0, 10.0)).unwrap().t), 5.0);
    assert_eq!(number(plane(-0.0001, 5.0, 0).hit(range(0.0, 10.0)).unwrap().t), 5.0);
    let unknown = Plane { denominator: None, t: scalar(5.0), facing: None, material_id: 0 };
    let hit = unknown.hit(range(0.0, 10.0)).unwrap();
    assert_eq!(number(hit.t), 5.0);
    assert_eq!(hit.front_face, Some(false));
    assert!(!hit.normal_turned);
    let unknown = Plane { denominator: scalar(1.0), t: None, facing: scalar(-1.0), material_id: 0 };
    assert!(unknown.hit(Interval::universe()).is_none());
}

#[test]
fn face_is_front_where_the_product_is_negative() {
    let start = HitResult {
        t: scalar(1.0).unwrap(),
        front_face: None,
        normal_turned: false,
        material_id: 3,
        object: 4,
    };
    let cases = [
        (scalar(-1.0), true, false),
        (scalar(-1.0e-45), true, false),
        (scalar(f32::NEG_INFINITY), true, false),
        (scalar(-0.0), false, false),
        (scalar(0.0), false, false),
        (scalar(1.0e-45), false, true),
        (scalar(0.5), false, true),
        (scalar(f32::INFINITY), false, true),
        (scalar(f32::NAN), false, false),
        (None, false, false),
    ];
    for (facing, front, turned) in cases {
        let mut hit = start;
        hit.set_face_normal(facing);
        assert_eq!(hit.front_face, Some(front));
        assert_eq!(hit.normal_turned, turned);
        assert_eq!(hit.t, start.t);
        assert_eq!(hit.material_id, 3);
        assert_eq!(hit.object, 4);

        let met = Plane { denominator: scalar(1.0), t: scalar(2.0), facing, material_id: 3 };
        let hit = met.hit(range(0.0, 10.0)).unwrap();
        assert_eq!(hit.front_face, Some(front));
        assert_eq!(hit.normal_turned, turned);
    }
}

#[test]
fn empty_scene_is_never_hit() {
    let world = HittableList::new();
    assert_eq!(world.list.len(), 0);
    assert!(world.hit_all(ray_range()).is_none());
    assert!(world.hit_all(Interval::universe()).is_none());
}

#[test]
fn nearest_object_wins_whatever_the_order() {
    let far = Hittable::Sphere(roots(1.0, 8.0, 9.0, 1));
    let near = Hittable::Sphere(roots(1.0, 2.0, 12.0, 2));
    let floor = Hittable::Plane(Plane {
        denominator: scalar(-1.0),
        t: scalar(5.0),
        facing: scalar(0.25),
        material_id: 3,
    });
    let orders = [
        [far, near, floor],
        [far, floor, near],
        [near, far, floor],
        [near, floor, far],
        [floor, far, near],
        [floor, near, far],
    ];
    for order in orders {
        let mut world = HittableList::new();
        for object in order {
            world.add_hittable(object);
        }
        let hit = world.hit_all(range(0.0, 100.0)).unwrap();
        assert_eq!(number(hit.t), 2.0);
        assert_eq!(hit.material_id, 2);
        assert!(matches!(world.list[hit.object], Hittable::Sphere(_)));
        assert_eq!(hit.front_face, Some(true));
        assert!(!hit.normal_turned);

        let hit = world.hit_all(range(2.0, 100.0)).unwrap();
        assert_eq!(number(hit.t), 5.0);
        assert_eq!(hit.material_id, 3);
        assert!(matches!(world.list[hit.object], Hittable::Plane(_)));
        assert_eq!(hit.front_face, Some(false));
        assert!(hit.normal_turned);

        let hit = world.hit_all(range(5.0, 100.0)).unwrap();
        assert_eq!(number(hit.t), 8.0);
        assert_eq!(hit.material_id, 1);
        assert_eq!(hit.front_face, Some(true));

        let hit = world.hit_all(range(9.0, 100.0)).unwrap();
        assert_eq!(number(hit.t), 12.0);
        assert_eq!(hit.material_id, 2);
        assert_eq!(hit.front_face, Some(false));
        assert!(hit.normal_turned);

        assert!(world.hit_all(range(12.0, 100.0)).is_none());
        assert!(world.hit_all(range(0.0, 2.0)).is_none());
    }
}

#[test]
fn first_object_wins_a_tie() {
    let a = Hittable::Sphere(roots(1.0, 4.0, 6.0, 1));
    let b = Hittable::Plane(plane(1.0, 4.0, 2));
    let c = Hittable::Sphere(roots(1.0, -3.0, 4.0, 3));
    let mut world = HittableList::new();
    world.add_hittable(a);
    world.add_hittable(b);
    world.add_hittable(c);
    let hit = world.hit_all(range(0.0, 10.0)).unwrap();
    assert_eq!(number(hit.t), 4.0);
    assert_eq!(hit.object, 0);
    assert_eq!(hit.material_id, 1);
    assert_eq!(hit.front_face, Some(true));

    let mut world = HittableList::new();
    world.add_hittable(c);
    world.add_hittable(b);
    world.add_hittable(a);
    let hit = world.hit_all(range(0.0, 10.0)).unwrap();
    assert_eq!(number(hit.t), 4.0);
    assert_eq!(hit.object, 0);
    assert_eq!(hit.material_id, 3);
    assert_eq!(hit.front_face, Some(false));
}

#[test]
fn hit_all_is_the_least_crossing_of_many_objects() {
    let mut state: u32 = 12345;
    let mut next = move || {
        state = state.wrapping_mul(1664525).wrapping_add(1013904223);
        ((state >> 8) % 2000) as f32 / 10.0 - 50.0
    };
    for _round in 0..200 {
        let mut world = HittableList::new();
        let mut crossings: Vec<(usize, f32, f32)> = Vec::new();
        for object in 0..7usize {
            let a = next();
            let b = next();
            let facing_a = next();
            let facing_b = next();
            if object % 3 == 2 {
                let denominator = if a > 0.0 { 0.5 } else { 0.00001 };
                world.add_hittable(Hittable::Plane(Plane {
                    denominator: scalar(denominator),
                    t: scalar(b),
                    facing: scalar(facing_b),
                    material_id: object as i32,
                }));
                if a > 0.0 {
                    crossings.push((object, b, facing_b));
                }
            } else {
                let discriminant = next();
                world.add_hittable(Hittable::Sphere(Sphere::new(
                    scalar(discriminant),
                    scalar(a),
                    scalar(facing_a),
                    scalar(b),
                    scalar(facing_b),
                    object as i32,
                )));
                if !(discriminant < 0.0) {
                    if a <= b {
                        crossings.push((object, a, facing_a));
                        crossings.push((object, b, facing_b));
                    } else {
                        crossings.push((object, b, facing_b));
                        crossings.push((object, a, facing_a));
                    }
                }
            }
        }
        let min = next();
        let max = next();
        let mut expected: Option<(usize, f32, f32)> = None;
        for (object, t, facing) in crossings {
            if min < t && t < max {
                let better = match expected {
                    None => true,
                    Some((_, best, _)) => t < best,
                };
                if better {
                    expected = Some((object, t, facing));
                }
            }
        }
        let hit = world.hit_all(range(min, max));
        match expected {
            None => assert!(hit.is_none()),
            Some((object, t, facing)) => {
                let hit = hit.unwrap();
                assert_eq!(number(hit.t), t);
                assert_eq!(hit.object, object);
                assert_eq!(hit.material_id, object as i32);
                assert_eq!(hit.front_face, Some(facing < 0.0));
                assert_eq!(hit.normal_turned, facing > 0.0);
            }
        }
    }
}

#[test]
fn centre_pixel_sees_the_small_sphere() {
    let aspect_ratio: f32 = 16.0 / 9.0;
    let image_width: i32 = 400;
    let image_height: i32 = ((image_width as f32 / aspect_ratio) as i32).max(1);
    let position = Vec3::ZERO;
    let focus_dist: f32 = 10.0;
    let theta = (90.0f64).to_radians();
    let h = (theta / 2.0).tan();
    let viewport_height = (2.0 * h * focus_dist as f64) as f32;
    let viewport_width = viewport_height * (image_width as f64 / image_height as f64) as f32;
    let viewport_u = viewport_width * Vec3::X;
    let viewport_v = viewport_height * -Vec3::Y;
    let upper_left = position - Vec3::Z * focus_dist - viewport_u / 2.0 - viewport_v / 2.0;
    let pixel_delta_u = viewport_u / image_width as f32;
    let pixel_delta_v = viewport_v / image_height as f32;
    let pixel00 = upper_left + (pixel_delta_u + pixel_delta_v) * 0.5;
    let x = 200;
    let y = 112;
    let pixel = pixel00 + pixel_delta_u * x as f32 + pixel_delta_v * y as f32;
    let direction = (pixel - position).normalize();

    let ball_center = Vec3::new(0.0, 0.0, -1.0);
    let ground_center = Vec3::new(0.0, -100.5, -1.0);
    let mut world = HittableList::new();
    world.add_hittable(Hittable::Sphere(meet_sphere(position, direction, ball_center, 0.5, 1)));
    world.add_hittable(Hittable::Sphere(meet_sphere(position, direction, ground_center, 100.0, 2)));

    let hit = world.hit_all(ray_range()).unwrap();
    assert_eq!(hit.object, 0);
    assert_eq!(hit.material_id, 1);
    assert_eq!(hit.front_face, Some(true));
    assert!(!hit.normal_turned);
    let t = number(hit.t);
    assert!(0.49 < t && t < 0.51, "{t}");
    assert!(t < 1.0);
    let location = position + direction * t;
    assert!(((location - ball_center).length() - 0.5).abs() < 1.0e-5);
}

#[test]
fn list_grows_clears_and_merges() {
    let a = Hittable::Sphere(roots(1.0, 1.0, 2.0, 10));
    let b = Hittable::Plane(plane(1.0, 3.0, 11));
    let c = Hittable::Sphere(roots(1.0, 0.5, 4.0, 12));
    let mut world = HittableList::new();
    world.add_hittable(a);
    world.add_hittable(b);
    assert_eq!(world.list.len(), 2);
    assert_eq!(world.hit_all(range(0.0, 9.0)).unwrap().material_id, 10);

    let mut other = HittableList::new();
    other.add_hittable(c);
    other.add_hittable(b);
    world.merge(other);
    assert_eq!(world.list.len(), 4);
    assert!(matches!(world.list[0], Hittable::Sphere(_)));
    assert!(matches!(world.list[1], Hittable::Plane(_)));
    assert!(matches!(world.list[2], Hittable::Sphere(_)));
    assert!(matches!(world.list[3], Hittable::Plane(_)));
    let hit = world.hit_all(range(0.0, 9.0)).unwrap();
    assert_eq!(hit.material_id, 12);
    assert_eq!(hit.object, 2);
    assert_eq!(number(hit.t), 0.5);

    let copy = world.clone();
    assert_eq!(copy.list.len(), 4);
    let hit = copy.hit_all(range(0.0, 9.0)).unwrap();
    assert_eq!(hit.object, 2);
    assert_eq!(number(hit.t), 0.5);

    world.clear();
    assert_eq!(world.list.len(), 0);
    assert!(world.hit_all(range(0.0, 9.0)).is_none());
    assert_eq!(copy.list.len(), 4);
}

#[test]
fn hit_of_one_object_through_the_sum_type() {
    let sphere = Hittable::Sphere(roots(1.0, 1.0, 2.0, 10));
    let flat = Hittable::Plane(plane(1.0, 3.0, 11));
    let hit = sphere.hit(range(0.0, 9.0)).unwrap();
    assert_eq!(number(hit.t), 1.0);
    assert_eq!(hit.material_id, 10);
    assert_eq!(hit.object, 0);
    assert_eq!(hit.front_face, Some(true));
    let hit = sphere.hit(range(1.0, 9.0)).unwrap();
    assert_eq!(number(hit.t), 2.0);
    assert_eq!(hit.front_face, Some(false));
    let hit = flat.hit(range(0.0, 9.0)).unwrap();
    assert_eq!(number(hit.t), 3.0);
    assert_eq!(hit.material_id, 11);
    assert_eq!(hit.front_face, Some(true));
    assert!(flat.hit(range(3.0, 9.0)).is_none());
    assert!(sphere.hit(range(2.0, 9.0)).is_none());
}
