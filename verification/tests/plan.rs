use rigid_walk::{Length, RigidWalk, Slope, WalkError, SLOPE_LIMIT};

fn three_four_five() -> Slope {
    Slope { across: 3, along: 4, span: 5 }
}

fn five_twelve_thirteen() -> Slope {
    Slope { across: 5, along: 12, span: 13 }
}

fn gcd_of(a: u128, b: u128) -> u128 {
    if b == 0 {
        a
    } else {
        gcd_of(b, a % b)
    }
}

/// The fraction in lowest terms.
fn lowest(length: Length) -> (u128, u128) {
    let g = gcd_of(length.num, length.den);
    (length.num / g, length.den / g)
}

fn sample_plan(displacement: i32, offset: i32) -> RigidWalk {
    RigidWalk::new(0, 45, 10, displacement, offset, three_four_five(), five_twelve_thirteen())
        .unwrap()
}

#[test]
fn a_zero_offset_is_invalid() {
    let r = RigidWalk::new(0, 45, 10, 100, 0, three_four_five(), five_twelve_thirteen());
    assert_eq!(r.err(), Some(WalkError::InvalidParameter));
    let r = RigidWalk::walk8(300_000_000, 100, 0, three_four_five(), five_twelve_thirteen());
    assert_eq!(r.err(), Some(WalkError::InvalidParameter));
    let r = RigidWalk::walk4(300_000_000, 100, 0, three_four_five(), five_twelve_thirteen());
    assert_eq!(r.err(), Some(WalkError::InvalidParameter));
}

#[test]
fn a_negative_offset_is_invalid() {
    let r = RigidWalk::new(0, 45, 10, 100, -1, three_four_five(), five_twelve_thirteen());
    assert_eq!(r.err(), Some(WalkError::InvalidParameter));
    let r = RigidWalk::new(0, 45, 10, 100, i32::MIN, three_four_five(), five_twelve_thirteen());
    assert_eq!(r.err(), Some(WalkError::InvalidParameter));
}

#[test]
fn a_negative_displacement_is_invalid() {
    let r = RigidWalk::new(0, 45, 10, -1, 2, three_four_five(), five_twelve_thirteen());
    assert_eq!(r.err(), Some(WalkError::InvalidParameter));
    let r = RigidWalk::new(0, 45, 0, -1, 2, three_four_five(), five_twelve_thirteen());
    assert_eq!(r.err(), Some(WalkError::InvalidParameter));
}

#[test]
fn a_degenerate_request_with_a_bad_offset_is_invalid() {
    let r = RigidWalk::new(0, 45, 45, 100, 0, three_four_five(), five_twelve_thirteen());
    assert_eq!(r.err(), Some(WalkError::InvalidParameter));
}

#[test]
fn slopes_that_are_no_triangles_are_invalid() {
    let good = three_four_five();
    let flat = Slope { across: 0, along: 4, span: 5 };
    let long_side = Slope { across: 6, along: 4, span: 5 };
    let no_angle = Slope { across: 3, along: 5, span: 5 };
    let too_large = Slope { across: 3, along: 4, span: SLOPE_LIMIT + 1 };
    let empty = Slope { across: 0, along: 0, span: 0 };
    for bad in [flat, long_side, no_angle, too_large, empty] {
        assert_eq!(
            RigidWalk::new(0, 45, 10, 100, 2, bad, good).err(),
            Some(WalkError::InvalidParameter)
        );
        assert_eq!(
            RigidWalk::new(0, 45, 10, 100, 2, good, bad).err(),
            Some(WalkError::InvalidParameter)
        );
    }
}

#[test]
fn two_directions_at_right_angles_to_the_target_are_invalid() {
    let upright = Slope { across: 5, along: 0, span: 5 };
    let r = RigidWalk::new(-90, 90, 0, 100, 2, upright, upright);
    assert_eq!(r.err(), Some(WalkError::InvalidParameter));
    // one of them is enough to get ahead
    let r = RigidWalk::new(-90, 90, 0, 100, 2, upright, three_four_five());
    assert!(r.is_ok());
    let r = RigidWalk::new(-90, 90, 0, 100, 2, three_four_five(), upright);
    assert!(r.is_ok());
}

#[test]
fn a_degenerate_plan_does_not_look_at_the_slopes() {
    let empty = Slope { across: 0, along: 0, span: 0 };
    let walk = RigidWalk::new(45, 90, 45, 100, 1, empty, empty).unwrap();
    assert_eq!(walk.repeat_count(), 0);
    assert_eq!(lowest(walk.total_distance()), (100, 1));
    let walk = RigidWalk::new(90, 45, 45, 7, 1, empty, empty).unwrap();
    assert_eq!(lowest(walk.total_distance()), (7, 1));
}

#[test]
fn repeat_count_is_the_floor_of_the_quotient() {
    // one pair leads 2 * 4 / 3 + 2 * 12 / 5 = 112 / 15 ahead
    assert_eq!(sample_plan(100, 2).repeat_count(), 13);
    assert_eq!(sample_plan(7, 2).repeat_count(), 0);
    assert_eq!(sample_plan(8, 2).repeat_count(), 1);
    assert_eq!(sample_plan(0, 2).repeat_count(), 0);
    // a whole number of pairs: 112 = 15 * (112 / 15)
    assert_eq!(sample_plan(112, 2).repeat_count(), 15);
    assert_eq!(sample_plan(111, 2).repeat_count(), 14);
    // half the offset, twice the pairs
    assert_eq!(sample_plan(112, 1).repeat_count(), 30);
}

#[test]
fn total_distance_is_all_pairs_and_the_last_pair() {
    // 13 * (10 / 3 + 26 / 5) + 55 / 42 + 143 / 70 = 800 / 7
    assert_eq!(lowest(sample_plan(100, 2).total_distance()), (800, 7));
    // 15 pairs and nothing left: 15 * 128 / 15
    assert_eq!(lowest(sample_plan(112, 2).total_distance()), (128, 1));
    assert_eq!(lowest(sample_plan(0, 2).total_distance()), (0, 1));
}

#[test]
fn total_distance_does_not_depend_on_the_offset() {
    for offset in [1, 2, 3, 10, 1000, i32::MAX] {
        assert_eq!(lowest(sample_plan(100, offset).total_distance()), (800, 7));
    }
}

#[test]
fn total_distance_is_not_less_than_the_displacement() {
    for displacement in [0, 1, 7, 8, 100, 112, 12345, i32::MAX] {
        for offset in [1, 2, 50, i32::MAX] {
            let walk = sample_plan(displacement, offset);
            let total = walk.total_distance();
            // total >= displacement, and more than it but for no displacement at all
            let d = displacement as u128;
            assert!(total.den > 0);
            assert!(total.num >= d * total.den);
            assert_eq!(total.num == d * total.den, displacement == 0);
        }
    }
}

#[test]
fn total_distance_of_a_degenerate_plan_is_the_displacement() {
    for displacement in [0, 1, 100, i32::MAX] {
        let walk =
            RigidWalk::new(10, 45, 10, displacement, 3, three_four_five(), five_twelve_thirteen())
                .unwrap();
        assert_eq!(lowest(walk.total_distance()), (displacement as u128, 1));
    }
}

#[test]
fn what_is_left_is_less_than_a_pair() {
    // in fifteenths: a pair is 112 * offset / 2, the displacement 15 * d
    for displacement in [0, 1, 7, 8, 100, 111, 112, 113, 99999] {
        for offset in [1, 2, 3, 17] {
            let walk = sample_plan(displacement, offset);
            let n = walk.repeat_count();
            let pair = 56 * offset as u128;
            let reach = 15 * displacement as u128;
            assert!(n * pair <= reach);
            assert!(reach < (n + 1) * pair);
        }
    }
}

#[test]
fn plans_at_the_limits_of_the_numbers() {
    let steep = Slope { across: SLOPE_LIMIT, along: 0, span: SLOPE_LIMIT };
    let shallow = Slope { across: 1, along: SLOPE_LIMIT - 1, span: SLOPE_LIMIT };
    let wide = Slope { across: SLOPE_LIMIT, along: SLOPE_LIMIT - 1, span: SLOPE_LIMIT };
    for (p, s) in [(steep, shallow), (shallow, steep), (wide, wide), (shallow, shallow)] {
        for displacement in [0, 1, i32::MAX] {
            for offset in [1, i32::MAX] {
                let walk = RigidWalk::new(0, 90, 45, displacement, offset, p, s).unwrap();
                let total = walk.total_distance();
                assert!(total.num >= displacement as u128 * total.den);
                let mut steps = walk.iter_full(true);
                for _ in 0..4 {
                    if let Some(act) = steps.next() {
                        assert!(act.distance.den > 0);
                    }
                }
            }
        }
    }
}
