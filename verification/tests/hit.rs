use ray_tracer::hit::{nearest_hit, Hit, Root, Roots};
use ray_tracer::key::key;

fn key_of(t: f32) -> i64 {
    key(t.to_bits())
}

/// The roots of a ray from the origin down the z axis on a sphere that is
/// centred on the axis.
fn roots_on_axis(distance: f32, radius: f32) -> Option<Roots> {
    let a = 1.0_f32;
    let half_b = -distance;
    let c = distance * distance - radius * radius;
    let discriminant = half_b * half_b - a * c;
    if discriminant > 0.0 {
        let root = discriminant.sqrt();
        Some(Roots::new(key_of((-half_b - root) / a), key_of((-half_b + root) / a)))
    } else {
        None
    }
}

#[test]
fn roots_are_stored_smaller_first() {
    let roots = Roots::new(7, 3);
    assert_eq!(roots.near(), 3);
    assert_eq!(roots.far(), 7);
    let roots = Roots::new(3, 7);
    assert_eq!(roots.near(), 3);
    assert_eq!(roots.far(), 7);
    let roots = Roots::new(5, 5);
    assert_eq!(roots.near(), 5);
    assert_eq!(roots.far(), 5);
}

#[test]
fn roots_at_names_a_root() {
    let roots = Roots::new(-4, 9);
    assert_eq!(roots.at(Root::Near), -4);
    assert_eq!(roots.at(Root::Far), 9);
}

#[test]
fn first_within_prefers_the_near_root() {
    assert_eq!(Roots::new(3, 7).first_within(0, 100), Some(Root::Near));
}

#[test]
fn first_within_falls_back_to_the_far_root() {
    assert_eq!(Roots::new(-3, 7).first_within(0, 100), Some(Root::Far));
}

#[test]
fn first_within_rejects_roots_outside() {
    assert_eq!(Roots::new(-7, -3).first_within(0, 100), None);
    assert_eq!(Roots::new(200, 300).first_within(0, 100), None);
    assert_eq!(Roots::new(-1, 200).first_within(0, 100), None);
}

#[test]
fn first_within_excludes_the_ends_of_the_window() {
    assert_eq!(Roots::new(0, 100).first_within(0, 100), None);
    assert_eq!(Roots::new(0, 99).first_within(0, 100), Some(Root::Far));
    assert_eq!(Roots::new(1, 100).first_within(0, 100), Some(Root::Near));
}

#[test]
fn first_within_of_an_empty_window_is_none() {
    assert_eq!(Roots::new(5, 6).first_within(10, 0), None);
    assert_eq!(Roots::new(5, 6).first_within(5, 6), None);
}

#[test]
fn nearest_hit_of_an_empty_world_is_none() {
    assert_eq!(nearest_hit(&Vec::new(), 0, 100), None);
}

#[test]
fn nearest_hit_is_none_where_no_surface_is_crossed() {
    let crossings = vec![None, None, None];
    assert_eq!(nearest_hit(&crossings, 0, 100), None);
}

#[test]
fn nearest_hit_is_none_where_every_crossing_is_outside() {
    let crossings = vec![Some(Roots::new(-5, -1)), None, Some(Roots::new(100, 120))];
    assert_eq!(nearest_hit(&crossings, 0, 100), None);
}

#[test]
fn nearest_hit_reports_surface_root_and_parameter() {
    let crossings = vec![None, Some(Roots::new(30, 70))];
    assert_eq!(
        nearest_hit(&crossings, 0, 100),
        Some(Hit { surface: 1, root: Root::Near, t: 30 })
    );
}

#[test]
fn nearest_hit_takes_the_nearer_of_two_in_either_order() {
    let nearer = Some(Roots::new(10, 20));
    let farther = Some(Roots::new(15, 40));
    assert_eq!(
        nearest_hit(&vec![nearer, farther], 0, 100),
        Some(Hit { surface: 0, root: Root::Near, t: 10 })
    );
    assert_eq!(
        nearest_hit(&vec![farther, nearer], 0, 100),
        Some(Hit { surface: 1, root: Root::Near, t: 10 })
    );
}

#[test]
fn nearest_hit_gives_one_parameter_for_every_order() {
    let a = Some(Roots::new(-8, 12));
    let b = Some(Roots::new(9, 30));
    let c = None;
    let d = Some(Roots::new(11, 13));
    let orders = [
        vec![a, b, c, d],
        vec![d, c, b, a],
        vec![b, a, d, c],
        vec![c, d, a, b],
    ];
    for crossings in orders.iter() {
        let hit = nearest_hit(crossings, 0, 100).unwrap();
        assert_eq!(hit.t, 9);
        assert_eq!(hit.root, Root::Near);
        assert_eq!(crossings[hit.surface].unwrap().near(), 9);
    }
}

#[test]
fn nearest_hit_keeps_the_first_of_equal_crossings() {
    let crossings = vec![Some(Roots::new(10, 50)), Some(Roots::new(10, 60))];
    assert_eq!(
        nearest_hit(&crossings, 0, 100),
        Some(Hit { surface: 0, root: Root::Near, t: 10 })
    );
}

#[test]
fn nearest_hit_compares_far_roots_with_near_roots() {
    let inside = Some(Roots::new(-5, 4));
    let ahead = Some(Roots::new(6, 9));
    assert_eq!(
        nearest_hit(&vec![ahead, inside], 0, 100),
        Some(Hit { surface: 1, root: Root::Far, t: 4 })
    );
    assert_eq!(
        nearest_hit(&vec![inside, ahead], 0, 100),
        Some(Hit { surface: 0, root: Root::Far, t: 4 })
    );
}

#[test]
fn nearest_hit_does_not_take_a_far_root_behind_a_nearer_hit() {
    // The near root of the second surface lies before the window, and its
    // far root behind the crossing of the first.
    let crossings = vec![Some(Roots::new(5, 6)), Some(Roots::new(-1, 8))];
    assert_eq!(
        nearest_hit(&crossings, 0, 100),
        Some(Hit { surface: 0, root: Root::Near, t: 5 })
    );
}

#[test]
fn nearest_hit_takes_the_extremes_of_the_key_range() {
    let crossings = vec![Some(Roots::new(i64::MIN, i64::MAX))];
    assert_eq!(nearest_hit(&crossings, i64::MIN, i64::MAX), None);
    let crossings = vec![Some(Roots::new(i64::MIN + 1, i64::MAX - 1))];
    assert_eq!(
        nearest_hit(&crossings, i64::MIN, i64::MAX),
        Some(Hit { surface: 0, root: Root::Near, t: i64::MIN + 1 })
    );
}

#[test]
fn ray_aimed_at_a_sphere_hits_at_distance_less_radius() {
    let crossings = vec![roots_on_axis(5.0, 2.0)];
    let hit = nearest_hit(&crossings, key_of(0.001), key_of(f32::INFINITY)).unwrap();
    assert_eq!(hit.surface, 0);
    assert_eq!(hit.root, Root::Near);
    assert_eq!(hit.t, key_of(3.0));
}

#[test]
fn ray_from_inside_a_sphere_hits_at_distance_plus_radius() {
    let crossings = vec![roots_on_axis(1.0, 2.0)];
    let hit = nearest_hit(&crossings, key_of(0.001), key_of(f32::INFINITY)).unwrap();
    assert_eq!(hit.root, Root::Far);
    assert_eq!(hit.t, key_of(3.0));
}

#[test]
fn sphere_behind_the_ray_is_not_hit() {
    let crossings = vec![roots_on_axis(-5.0, 2.0)];
    assert_eq!(nearest_hit(&crossings, key_of(0.001), key_of(f32::INFINITY)), None);
}

#[test]
fn nearer_of_two_spheres_on_the_axis_is_hit() {
    let near_sphere = roots_on_axis(4.0, 1.0);
    let far_sphere = roots_on_axis(10.0, 2.0);
    let t_min = key_of(0.001);
    let t_max = key_of(f32::INFINITY);
    let hit = nearest_hit(&vec![far_sphere, near_sphere], t_min, t_max).unwrap();
    assert_eq!((hit.surface, hit.t), (1, key_of(3.0)));
    let hit = nearest_hit(&vec![near_sphere, far_sphere], t_min, t_max).unwrap();
    assert_eq!((hit.surface, hit.t), (0, key_of(3.0)));
}
