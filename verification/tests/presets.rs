use rigid_walk::{relative_angle, AllowedAngles, RigidWalk, Slope, WalkAct, WalkError, SLOPE_LIMIT};

const ONE_DEGREE: i64 = 1_000_000_000;

fn radians(angle: i64) -> f64 {
    (angle as f64 / ONE_DEGREE as f64).to_radians()
}

fn from_radians(angle: f64) -> i64 {
    (angle.to_degrees() * ONE_DEGREE as f64).round() as i64
}

/// The slope of an allowed direction against the target, from its sine and
/// cosine.
fn slope_between(allowed: i64, angle: i64) -> Slope {
    let rel = radians(relative_angle(allowed, angle) as i64);
    let span = SLOPE_LIMIT;
    let across = (rel.sin() * span as f64).round() as u32;
    let along = ((rel.cos() * span as f64).round() as u32).min(span - 1);
    Slope { across, along, span }
}

fn vector_sum(acts: &[WalkAct]) -> (f64, f64) {
    let mut x = 0.0;
    let mut y = 0.0;
    for act in acts {
        let distance = act.distance.num as f64 / act.distance.den as f64;
        x += distance * radians(act.angle).sin();
        y += distance * radians(act.angle).cos();
    }
    (x, y)
}

fn eight_way_walk(angle: i64, displacement: i32, offset: i32) -> Result<RigidWalk, WalkError> {
    let allowed = AllowedAngles::eight_way(angle)?;
    RigidWalk::walk8(
        angle,
        displacement,
        offset,
        slope_between(allowed.primary_angle, angle),
        slope_between(allowed.secondary_angle, angle),
    )
}

fn four_way_walk(angle: i64, displacement: i32, offset: i32) -> Result<RigidWalk, WalkError> {
    let allowed = AllowedAngles::four_way(angle)?;
    RigidWalk::walk4(
        angle,
        displacement,
        offset,
        slope_between(allowed.primary_angle, angle),
        slope_between(allowed.secondary_angle, angle),
    )
}

#[test]
fn eight_way_at_45_degrees_is_one_straight_leg() {
    let angle = 45 * ONE_DEGREE;
    let allowed = AllowedAngles::eight_way(angle).unwrap();
    assert_eq!(allowed.primary_angle, 90 * ONE_DEGREE);
    assert_eq!(allowed.secondary_angle, 45 * ONE_DEGREE);
    let walk = eight_way_walk(angle, 100, 1).unwrap();
    let mut steps = walk.iter_full(true);
    let first = steps.next().unwrap();
    assert_eq!(first.angle, 45 * ONE_DEGREE);
    assert_eq!(first.distance.num, 100 * first.distance.den);
    assert!(steps.next().is_none());
    let total = walk.total_distance();
    assert_eq!(total.num, 100 * total.den);
}

#[test]
fn eight_way_at_three_tenths_of_a_radian_reaches_the_target() {
    let angle = from_radians(0.3);
    let walk = eight_way_walk(angle, 50, 5).unwrap();
    let acts = walk.iter_full(true).drain();
    assert!(acts.len() > 1);
    let (x, y) = vector_sum(&acts);
    assert!((x - 50.0 * 0.3f64.sin()).abs() < 1e-6);
    assert!((y - 50.0 * 0.3f64.cos()).abs() < 1e-6);
    let total = walk.total_distance();
    assert!(total.num > 50 * total.den);
    // the same from the other side
    let acts = walk.iter_full(false).drain();
    let (x, y) = vector_sum(&acts);
    assert!((x - 50.0 * 0.3f64.sin()).abs() < 1e-6);
    assert!((y - 50.0 * 0.3f64.cos()).abs() < 1e-6);
}

#[test]
fn eight_way_at_three_tenths_of_a_radian_has_the_lengths_of_the_formulas() {
    let angle = from_radians(0.3);
    let walk = eight_way_walk(angle, 50, 5).unwrap();
    let primary_rel = 0.3f64;
    let secondary_rel = std::f64::consts::FRAC_PI_4 - 0.3;
    let primary_leg = 5.0 / primary_rel.sin();
    let secondary_leg = 5.0 / secondary_rel.sin();
    let pair = 5.0 / primary_rel.tan() + 5.0 / secondary_rel.tan();
    let times = (50.0 / pair).floor();
    let left = 50.0 - pair * times;
    let last_offset = 5.0 * left / pair;
    let last_primary = last_offset / primary_rel.sin();
    let last_secondary = last_offset / secondary_rel.sin();
    assert_eq!(walk.repeat_count(), times as u128);
    assert_eq!(times, 1.0);
    let total = walk.total_distance();
    let expected = (primary_leg + secondary_leg) * times + last_primary + last_secondary;
    assert!((total.num as f64 / total.den as f64 - expected).abs() < 1e-6);
    let acts = walk.iter_full(true).drain();
    assert_eq!(acts.len(), 3);
    let lengths: Vec<f64> =
        acts.iter().map(|act| act.distance.num as f64 / act.distance.den as f64).collect();
    assert_eq!(acts[0].angle, 0);
    assert!((lengths[0] - primary_leg).abs() < 1e-6);
    assert_eq!(acts[1].angle, 45 * ONE_DEGREE);
    assert!((lengths[1] - (secondary_leg + last_secondary)).abs() < 1e-6);
    assert_eq!(acts[2].angle, 0);
    assert!((lengths[2] - last_primary).abs() < 1e-6);
}

#[test]
fn four_way_at_ten_degrees_walks_along_the_axes() {
    let angle = 10 * ONE_DEGREE;
    let walk = four_way_walk(angle, 50, 5).unwrap();
    let acts = walk.iter_full(true).drain();
    assert!(acts.len() > 2);
    for (i, act) in acts.iter().enumerate() {
        if i % 2 == 0 {
            assert_eq!(act.angle, 0);
        } else {
            assert_eq!(act.angle, 90 * ONE_DEGREE);
        }
    }
    let (x, y) = vector_sum(&acts);
    assert!((x - 50.0 * radians(angle).sin()).abs() < 1e-6);
    assert!((y - 50.0 * radians(angle).cos()).abs() < 1e-6);
}

#[test]
fn a_zero_offset_gives_no_plan() {
    assert_eq!(eight_way_walk(from_radians(0.3), 50, 0).err(), Some(WalkError::InvalidParameter));
    assert_eq!(four_way_walk(from_radians(0.3), 50, 0).err(), Some(WalkError::InvalidParameter));
    assert_eq!(eight_way_walk(45 * ONE_DEGREE, 100, 0).err(), Some(WalkError::InvalidParameter));
}

#[test]
fn walks_in_all_directions_reach_the_target() {
    for tenth in -40..40 {
        let target = tenth as f64 / 10.0 + 0.05;
        let angle = from_radians(target);
        for (displacement, offset) in [(50, 5), (1000, 3), (3, 20)] {
            for walk in [
                eight_way_walk(angle, displacement, offset).unwrap(),
                four_way_walk(angle, displacement, offset).unwrap(),
            ] {
                for start_primary in [true, false] {
                    let acts = walk.iter_full(start_primary).drain();
                    let (x, y) = vector_sum(&acts);
                    let d = displacement as f64;
                    assert!((x - d * radians(angle).sin()).abs() < 1e-6 * d);
                    assert!((y - d * radians(angle).cos()).abs() < 1e-6 * d);
                    assert!(acts.len() as u128 <= 2 * walk.repeat_count() + 2);
                }
            }
        }
    }
}

#[test]
fn the_presets_use_the_directions_of_their_set() {
    let angle = 100 * ONE_DEGREE;
    let acts = eight_way_walk(angle, 50, 5).unwrap().iter_full(true).drain();
    assert_eq!(acts[0].angle, 90 * ONE_DEGREE);
    assert_eq!(acts[1].angle, 135 * ONE_DEGREE);
    let acts = four_way_walk(angle, 50, 5).unwrap().iter_full(true).drain();
    assert_eq!(acts[0].angle, 180 * ONE_DEGREE);
    assert_eq!(acts[1].angle, 90 * ONE_DEGREE);
}

#[test]
fn the_presets_turn_down_an_angle_out_of_range() {
    let slope = Slope { across: 3, along: 4, span: 5 };
    assert_eq!(
        RigidWalk::walk8(i64::MAX, 50, 5, slope, slope).err(),
        Some(WalkError::InvalidParameter)
    );
    assert_eq!(
        RigidWalk::walk4(i64::MIN, 50, 5, slope, slope).err(),
        Some(WalkError::InvalidParameter)
    );
}
