use wave_pacing::catalog::SpawnVariant;
use wave_pacing::resolver::{isqrt, plan_spawn, resolve, SpawnPlan, Spawner};

#[test]
fn isqrt_exact_values() {
    assert_eq!(isqrt(0), 0);
    assert_eq!(isqrt(1), 1);
    assert_eq!(isqrt(3), 1);
    assert_eq!(isqrt(4), 2);
    assert_eq!(isqrt(24), 4);
    assert_eq!(isqrt(25), 5);
    assert_eq!(isqrt(26), 5);
    assert_eq!(isqrt(u32::MAX as u64 * u32::MAX as u64), u32::MAX as u64);
}

fn plan_3_4(origin: (i64, i64, i64)) -> SpawnPlan {
    SpawnPlan {
        variant: SpawnVariant::BasicEnemy,
        origin_x: origin.0,
        origin_y: origin.1,
        origin_z: origin.2,
        dx: 3,
        dz: 4,
        cast_len: 5,
    }
}

#[test]
fn unobstructed_spawn_lands_on_the_sampled_point() {
    let r = resolve(&plan_3_4((10, 2, -7)), None, 1);
    assert_eq!((r.x, r.y, r.z), (13, 2, -3));
    assert_eq!(r.variant, SpawnVariant::BasicEnemy);
}

#[test]
fn obstructed_spawn_is_pulled_back_behind_the_margin() {
    // Obstruction at distance 4 of a length-5 cast, margin 1: the position
    // may lie at most 3 units out. 3*3/6 = 1 and 4*3/6 = 2.
    let r = resolve(&plan_3_4((0, 0, 0)), Some(4), 1);
    assert_eq!((r.x, r.z), (1, 2));
    assert!(r.x * r.x + r.z * r.z <= 9);
}

#[test]
fn obstruction_closer_than_margin_clamps_to_the_origin() {
    let r = resolve(&plan_3_4((5, 5, 5)), Some(1), 2);
    assert_eq!((r.x, r.y, r.z), (5, 5, 5));
}

#[test]
fn negative_direction_is_mirrored() {
    let p = SpawnPlan { dx: -3, dz: 4, ..plan_3_4((0, 0, 0)) };
    let r = resolve(&p, Some(4), 1);
    assert_eq!((r.x, r.z), (-1, 2));
}

#[test]
fn geometry_safety_across_obstruction_distances() {
    for d in 0..=5u64 {
        let r = resolve(&plan_3_4((0, 0, 0)), Some(d), 1);
        let t = d.saturating_sub(1) as i64;
        assert!(r.x * r.x + r.z * r.z <= t * t);
    }
}

#[test]
fn no_markers_means_no_plan() {
    let markers: Vec<Spawner> = vec![];
    assert!(plan_spawn(&markers, SpawnVariant::BigEnemy).is_none());
}

#[test]
fn planned_spawn_stays_inside_the_marker_disc() {
    let markers = vec![Spawner { x: 100, y: 0, z: -50, radius: 5 }];
    for _ in 0..50 {
        if let Some(p) = plan_spawn(&markers, SpawnVariant::SmallEnemy) {
            assert_eq!((p.origin_x, p.origin_y, p.origin_z), (100, 0, -50));
            assert!(p.dx * p.dx + p.dz * p.dz <= 25);
            assert!(p.dx != 0 || p.dz != 0);
            assert_eq!(p.cast_len, isqrt((p.dx * p.dx + p.dz * p.dz) as u64));
            assert_eq!(p.variant, SpawnVariant::SmallEnemy);
        }
    }
}

#[test]
fn zero_radius_marker_never_yields_a_cast_direction() {
    let markers = vec![Spawner { x: 0, y: 0, z: 0, radius: 0 }];
    assert!(plan_spawn(&markers, SpawnVariant::BasicEnemy).is_none());
}

#[test]
fn default_spawner_has_the_standard_radius() {
    let s = Spawner::default();
    assert_eq!((s.x, s.y, s.z, s.radius), (0, 0, 0, 5));
}
