use dscbot::leveling::{get_level_from_points, level};
use dscbot::leveling::get_level_cost as level_cost;

#[test]
fn get_level_cost() {
    let actual_cost = 250u64;
    assert_eq!(actual_cost, dscbot::leveling::get_level_cost(2));
}

#[test]
fn level_from_points() {
    let actual_level = 2u32;
    assert_eq!(actual_level, get_level_from_points(251u64));
}

#[test]
fn level_costs_grow_fivefold() {
    assert_eq!(level_cost(0), 10);
    assert_eq!(level_cost(1), 50);
    assert_eq!(level_cost(26), 10 * 5u64.pow(26));
}

#[test]
fn level_cost_saturates() {
    assert_eq!(level_cost(27), u64::MAX);
    assert_eq!(level_cost(u32::MAX), u64::MAX);
}

#[test]
fn level_boundaries() {
    assert_eq!(get_level_from_points(0), 0);
    assert_eq!(get_level_from_points(49), 0);
    assert_eq!(get_level_from_points(50), 1);
    assert_eq!(get_level_from_points(249), 1);
    assert_eq!(get_level_from_points(250), 2);
    assert_eq!(get_level_from_points(u64::MAX), 26);
}

#[test]
fn level_round_trip_on_costs() {
    for n in 1..27u32 {
        assert_eq!(get_level_from_points(level_cost(n)), n);
    }
}

#[test]
fn missing_points() {
    assert_eq!(level(0), (0, 50));
    assert_eq!(level(251), (2, 1250 - 251));
    assert_eq!(level(u64::MAX), (26, 0));
}
