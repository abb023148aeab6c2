use rayn::hitable::{dist_less, dist_less_eq, march_lane, march_result, nearer_root, nearest_hit, HitStore, HitableStore, LaneNearest, MISS_BITS};
use rayn::lanes::pack_lanes;

#[test]
fn pack_pads_last_batch() {
    let b = pack_lanes(&vec![1, 2, 3, 4, 5, 6], 0);
    assert_eq!(b, vec![[1, 2, 3, 4], [5, 6, 0, 0]]);
}

#[test]
fn pack_exact_multiple_needs_no_filler() {
    assert_eq!(pack_lanes(&vec![1, 2, 3, 4], 9), vec![[1, 2, 3, 4]]);
}

#[test]
fn pack_empty_is_empty() {
    assert!(pack_lanes(&Vec::<u8>::new(), 9).is_empty());
}

fn bits(v: f32) -> u32 {
    v.to_bits()
}

#[test]
fn dist_less_agrees_with_float_order() {
    let vals = [
        0.0f32, -0.0, 1.0, -1.0, 0.5, 500.0, f32::MAX, -f32::MAX, f32::INFINITY,
        f32::NEG_INFINITY, f32::NAN, -f32::NAN, 1e-30, -1e-30, f32::MIN_POSITIVE,
    ];
    for a in vals.iter() {
        for b in vals.iter() {
            assert_eq!(dist_less(bits(*a), bits(*b)), *a < *b, "{} < {}", a, b);
        }
    }
}

#[test]
fn nearest_hit_takes_minimum() {
    let d = vec![bits(3.0), bits(1.5), bits(f32::MAX), bits(2.0)];
    assert_eq!(nearest_hit(bits(500.0), &d), Some(1));
}

#[test]
fn nearest_hit_first_wins_ties() {
    let d = vec![bits(4.0), bits(2.0), bits(2.0), bits(-0.0)];
    assert_eq!(nearest_hit(bits(500.0), &d), Some(3));
    let d = vec![bits(2.0), bits(2.0)];
    assert_eq!(nearest_hit(bits(500.0), &d), Some(0));
    let d = vec![bits(0.0), bits(-0.0)];
    assert_eq!(nearest_hit(bits(500.0), &d), Some(0));
}

#[test]
fn nearest_hit_ignores_far_and_nan() {
    let d = vec![bits(f32::NAN), bits(600.0), bits(f32::MAX)];
    assert_eq!(nearest_hit(bits(500.0), &d), None);
    assert_eq!(nearest_hit(bits(500.0), &Vec::new()), None);
    let d = vec![bits(f32::NAN), bits(7.0)];
    assert_eq!(nearest_hit(bits(500.0), &d), Some(1));
}

#[test]
fn lane_nearest_tracks_closest() {
    let mut l = LaneNearest::new(bits(500.0));
    l.consider(0, bits(10.0));
    l.consider(1, bits(20.0));
    l.consider(2, bits(10.0));
    assert_eq!(l.id, Some(0));
    assert_eq!(l.closest, bits(10.0));
    l.consider(3, bits(5.0));
    assert_eq!(l, LaneNearest { closest: bits(5.0), id: Some(3) });
}

#[test]
fn hit_store_buckets_by_object() {
    let mut objects = HitableStore::new();
    objects.push("sphere");
    objects.push("fractal");
    assert_eq!(objects.len(), 2);
    assert_eq!(*objects.get(1), "fractal");
    let mut store: HitStore<i32> = HitStore::from_material_store(&objects);
    store.add_hit(1, 10);
    store.add_hit(0, 20);
    store.add_hit(1, 11);
    store.add_hit(1, 12);
    store.add_hit(1, 13);
    store.add_hit(1, 14);
    let batches = store.process_hits(-1);
    assert_eq!(batches.len(), 2);
    assert_eq!(batches[0], vec![[20, -1, -1, -1]]);
    assert_eq!(batches[1], vec![[10, 11, 12, 13], [14, -1, -1, -1]]);
    store.reset();
    assert_eq!(store.process_hits(-1), vec![Vec::<[i32; 4]>::new(), Vec::new()]);
}

#[test]
fn dist_less_eq_agrees_with_float_order() {
    let vals = [0.0f32, -0.0, 2.0, -2.0, f32::MAX, f32::INFINITY, f32::NAN, 1e-40, -1e-40];
    for a in vals.iter() {
        for b in vals.iter() {
            assert_eq!(dist_less_eq(bits(*a), bits(*b)), *a <= *b, "{} <= {}", a, b);
        }
    }
}

#[test]
fn sphere_roots_pick_nearer_in_range() {
    // a unit sphere two units ahead: roots at 1 and 3
    let (start, end) = (bits(0.0001), bits(500.0));
    assert_eq!(nearer_root(bits(1.0), bits(3.0), start, end), bits(1.0));
    // origin inside the sphere: the negative root is behind the ray
    assert_eq!(nearer_root(bits(-1.0), bits(1.0), start, end), bits(1.0));
    // both behind
    assert_eq!(nearer_root(bits(-3.0), bits(-1.0), start, end), MISS_BITS);
    // the near root past the range end
    assert_eq!(nearer_root(bits(600.0), bits(700.0), start, end), MISS_BITS);
    // the end itself is in range, the start is not
    assert_eq!(nearer_root(bits(500.0), bits(700.0), start, end), bits(500.0));
    assert_eq!(nearer_root(bits(0.0001), bits(2.0), start, end), bits(2.0));
    // no real roots
    assert_eq!(nearer_root(bits(f32::NAN), bits(f32::NAN), start, end), MISS_BITS);
    assert_eq!(f32::from_bits(MISS_BITS), f32::MAX);
}

#[test]
fn march_lane_advances_until_it_stops() {
    let (start, end) = (bits(0.0001), bits(500.0));
    // far from the surface: advance by the field value
    assert_eq!(march_lane(bits(1.0), bits(0.5), bits(1.5), start, end), (bits(1.5), false));
    // field value under the threshold: a hit, the distance stays
    assert_eq!(march_lane(bits(2.0), bits(0.00001), bits(2.00001), start, end), (bits(2.0), true));
    // past the range
    assert_eq!(march_lane(bits(501.0), bits(3.0), bits(504.0), start, end), (bits(501.0), true));
    // NaN distance
    assert_eq!(march_lane(bits(f32::NAN), bits(1.0), bits(f32::NAN), start, end).1, true);
}

#[test]
fn march_result_reports_misses() {
    assert_eq!(march_result(bits(3.0), bits(500.0)), bits(3.0));
    assert_eq!(march_result(bits(501.0), bits(500.0)), MISS_BITS);
    assert_eq!(march_result(bits(f32::NAN), bits(500.0)), MISS_BITS);
}

/// Sphere tracing of an exact sphere field, driven lane by lane through the
/// library's marching decisions, lands on the analytic hit within the
/// threshold.
#[test]
fn sphere_field_marches_to_analytic_hit() {
    // ray from the origin along +z; sphere of radius 1 centred at z = 5
    let field = |z: f32| (z - 5.0).abs() - 1.0;
    let (start, end) = (bits(0.0001), bits(500.0));
    let mut t = field(0.0).abs();
    for _ in 0..1000 {
        let d = field(t).abs();
        let (next, stop) = march_lane(bits(t), bits(d), bits(t + d), start, end);
        t = f32::from_bits(next);
        if stop {
            break;
        }
    }
    let hit = f32::from_bits(march_result(bits(t), end));
    assert!((hit - 4.0).abs() <= 0.0001, "{}", hit);
}
