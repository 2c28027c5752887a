use breakout::config::Config;
use breakout::paddle::{paddle_mov, steer, Input};
use breakout::UNIT;

fn keys(move_left: bool, move_right: bool) -> Input {
    Input { move_left, move_right }
}

#[test]
fn steer_sums_the_two_keys() {
    assert_eq!(steer(keys(false, false)), 0);
    assert_eq!(steer(keys(true, false)), -1);
    assert_eq!(steer(keys(false, true)), 1);
    assert_eq!(steer(keys(true, true)), 0);
}

#[test]
fn paddle_range_leaves_half_a_wall_and_half_a_paddle() {
    let config = Config::standard();
    assert_eq!(config.paddle_range(), (-385 * UNIT, 385 * UNIT));
}

#[test]
fn paddle_moves_by_speed_times_time() {
    let config = Config::standard();
    // 500 units per second for a sixtieth of a second
    assert_eq!(paddle_mov(0, keys(false, true), 100, &config), 50_000);
    assert_eq!(paddle_mov(0, keys(true, false), 100, &config), -50_000);
    assert_eq!(paddle_mov(7, keys(false, true), 1, &config), 507);
    // for a fiftieth of a second: 10 units
    assert_eq!(paddle_mov(UNIT, keys(false, true), 120, &config), 11 * UNIT);
}

#[test]
fn paddle_rests_without_keys_or_without_time() {
    let config = Config::standard();
    assert_eq!(paddle_mov(123, keys(false, false), 100, &config), 123);
    assert_eq!(paddle_mov(123, keys(true, false), 0, &config), 123);
    assert_eq!(paddle_mov(123, keys(false, true), 0, &config), 123);
}

#[test]
fn paddle_with_both_keys_held_stays_for_ten_ticks() {
    let config = Config::standard();
    let mut x = 0;
    for _ in 0..10 {
        x = paddle_mov(x, keys(true, true), 100, &config);
        assert_eq!(x, 0);
    }
}

#[test]
fn paddle_stops_at_the_walls() {
    let config = Config::standard();
    let (lo, hi) = config.paddle_range();
    assert_eq!(paddle_mov(hi - 10, keys(false, true), 100, &config), hi);
    assert_eq!(paddle_mov(hi, keys(false, true), 100, &config), hi);
    assert_eq!(paddle_mov(lo + 10, keys(true, false), 100, &config), lo);
    assert_eq!(paddle_mov(lo, keys(true, false), 100, &config), lo);
    assert_eq!(paddle_mov(hi, keys(true, false), 100, &config), hi - 50_000);
    assert_eq!(paddle_mov(0, keys(false, true), u32::MAX, &config), hi);
    assert_eq!(paddle_mov(0, keys(true, false), u32::MAX, &config), lo);
}

#[test]
fn paddle_outside_its_range_is_brought_back() {
    let config = Config::standard();
    let (lo, hi) = config.paddle_range();
    assert_eq!(paddle_mov(i64::MAX, keys(false, false), 100, &config), hi);
    assert_eq!(paddle_mov(i64::MAX, keys(false, true), u32::MAX, &config), hi);
    assert_eq!(paddle_mov(i64::MIN, keys(false, false), 100, &config), lo);
    assert_eq!(paddle_mov(i64::MIN, keys(true, false), u32::MAX, &config), lo);
}

#[test]
fn paddle_stays_in_range_for_any_keys() {
    let config = Config::standard();
    let (lo, hi) = config.paddle_range();
    let mut x = 0;
    let mut touched_lo = false;
    let mut touched_hi = false;
    for step in 0..2000u32 {
        // runs to the right wall, then to the left wall, then rattles
        let input = if step < 700 {
            keys(false, true)
        } else if step < 1700 {
            keys(true, false)
        } else {
            keys(step % 3 == 0, step % 5 != 0)
        };
        x = paddle_mov(x, input, 100 + step % 7, &config);
        assert!(lo <= x && x <= hi, "step {}: x = {}", step, x);
        touched_lo = touched_lo || x == lo;
        touched_hi = touched_hi || x == hi;
    }
    assert!(touched_lo && touched_hi);
}

#[test]
fn paddle_speed_may_be_negative_or_extreme() {
    let mut config = Config::standard();
    config.paddle_speed = -500;
    assert!(config.is_valid());
    assert_eq!(paddle_mov(0, keys(false, true), 100, &config), -50_000);
    config.paddle_speed = i64::MIN;
    assert!(config.is_valid());
    let (lo, hi) = config.paddle_range();
    assert_eq!(paddle_mov(0, keys(false, true), u32::MAX, &config), lo);
    assert_eq!(paddle_mov(0, keys(true, false), u32::MAX, &config), hi);
    assert_eq!(paddle_mov(0, keys(true, true), u32::MAX, &config), 0);
}
