use breakout::collision::{check_ball_collisions, reflect, Collider, Kind};
use breakout::geometry::{classify_overlap, Rect, Side};
use breakout::motion::{apply_velocity, Ball, Velocity};
use breakout::scoreboard::Scoreboard;
use breakout::UNIT;

fn rect(x: i64, y: i64, w: i64, h: i64) -> Rect {
    Rect::new(x, y, w, h).expect("positive size")
}

fn ball(x: i64, y: i64, vx: i64, vy: i64) -> Ball {
    Ball::new(rect(x, y, 30, 30), Velocity::new(vx, vy).expect("negatable")).expect("moving")
}

fn wall(id: u64, x: i64, y: i64, w: i64, h: i64) -> Collider {
    Collider { id, rect: rect(x, y, w, h), kind: Kind::Wall }
}

fn brick(id: u64, x: i64, y: i64) -> Collider {
    Collider { id, rect: rect(x, y, 100, 30), kind: Kind::Brick }
}

fn speed_squared(v: Velocity) -> i128 {
    v.x as i128 * v.x as i128 + v.y as i128 * v.y as i128
}

#[test]
fn reflect_negates_only_a_ball_that_moves_into_the_face() {
    let v = |x: i64, y: i64| Velocity { x, y };
    assert_eq!(reflect(v(200, -200), Side::Left), v(-200, -200));
    assert_eq!(reflect(v(-200, -200), Side::Left), v(-200, -200));
    assert_eq!(reflect(v(-200, -200), Side::Right), v(200, -200));
    assert_eq!(reflect(v(200, -200), Side::Right), v(200, -200));
    assert_eq!(reflect(v(200, -200), Side::Top), v(200, 200));
    assert_eq!(reflect(v(200, 200), Side::Top), v(200, 200));
    assert_eq!(reflect(v(200, 200), Side::Bottom), v(200, -200));
    assert_eq!(reflect(v(200, -200), Side::Bottom), v(200, -200));
}

#[test]
fn reflect_leaves_a_ball_inside_alone() {
    for (x, y) in [(200, -200), (-200, 200), (0, 5), (-7, 0)] {
        let v = Velocity { x, y };
        assert_eq!(reflect(v, Side::Inside), v);
    }
}

#[test]
fn reflect_leaves_a_component_of_zero_alone() {
    let v = Velocity { x: 0, y: 0 };
    for side in [Side::Left, Side::Right, Side::Top, Side::Bottom, Side::Inside] {
        assert_eq!(reflect(v, side), v);
    }
}

#[test]
fn reflect_twice_is_reflect_once() {
    let sides = [Side::Left, Side::Right, Side::Top, Side::Bottom, Side::Inside];
    let speeds = [-i64::MAX, -200, -1, 0, 1, 200, i64::MAX];
    for side in sides {
        for x in speeds {
            for y in speeds {
                let once = reflect(Velocity { x, y }, side);
                assert_eq!(reflect(once, side), once);
                assert_eq!(speed_squared(once), speed_squared(Velocity { x, y }));
            }
        }
    }
}

#[test]
fn ball_short_of_the_brick_flies_on() {
    // ball of 30 by 30 at the origin, brick of 100 by 30 centered 40 below:
    // after a fiftieth of a second the ball's lower edge is at -19 and the
    // brick's upper edge at -25
    let mut b = Ball::new(
        rect(0, 0, 30 * UNIT, 30 * UNIT),
        Velocity::new(200, -200).expect("negatable"),
    )
    .expect("moving");
    let target = Collider { id: 9, rect: rect(0, -40 * UNIT, 100 * UNIT, 30 * UNIT), kind: Kind::Brick };
    let mut colliders = vec![target];
    let mut score = Scoreboard::new();
    apply_velocity(&mut b, (UNIT / 50) as u32);
    assert_eq!((b.rect.x, b.rect.y), (4 * UNIT, -4 * UNIT));
    assert_eq!(classify_overlap(b.rect, target.rect), None);
    let gone = check_ball_collisions(&mut b, &mut colliders, &mut score);
    assert_eq!(gone, Vec::<u64>::new());
    assert_eq!(b.velocity, Velocity { x: 200, y: -200 });
    assert_eq!(colliders, vec![target]);
    assert_eq!(score.total(), 0);
}

#[test]
fn ball_reaching_the_brick_from_above_bounces_and_scores() {
    let mut b = Ball::new(
        rect(0, 0, 30 * UNIT, 30 * UNIT),
        Velocity::new(200, -200).expect("negatable"),
    )
    .expect("moving");
    let target = Collider { id: 9, rect: rect(0, -30 * UNIT, 100 * UNIT, 30 * UNIT), kind: Kind::Brick };
    let mut colliders = vec![target];
    let mut score = Scoreboard::new();
    apply_velocity(&mut b, (UNIT / 50) as u32);
    assert_eq!((b.rect.x, b.rect.y), (4 * UNIT, -4 * UNIT));
    assert_eq!(classify_overlap(b.rect, target.rect), Some(Side::Top));
    let gone = check_ball_collisions(&mut b, &mut colliders, &mut score);
    assert_eq!(gone, vec![9]);
    assert_eq!(b.velocity, Velocity { x: 200, y: 200 });
    assert_eq!((b.rect.x, b.rect.y), (4 * UNIT, -4 * UNIT));
    assert!(colliders.is_empty());
    assert_eq!(score.total(), 1);
}

#[test]
fn ball_touching_the_brick_bounces_and_scores() {
    // the lower edge of the ball at -19 meets the upper edge of the brick
    let mut b = ball(4, -4, 200, -200);
    let target = brick(3, 0, -34);
    let mut colliders = vec![target];
    let mut score = Scoreboard::new();
    assert_eq!(classify_overlap(b.rect, target.rect), Some(Side::Top));
    let gone = check_ball_collisions(&mut b, &mut colliders, &mut score);
    assert_eq!(gone, vec![3]);
    assert_eq!(b.velocity, Velocity { x: 200, y: 200 });
    assert!(colliders.is_empty());
    assert_eq!(score.total(), 1);
}

#[test]
fn wall_hit_on_the_left_face_is_not_reflected_twice() {
    let side_wall = wall(1, 100, 0, 10, 200);
    let mut b = ball(85, 0, 200, 50);
    let mut colliders = vec![side_wall];
    let mut score = Scoreboard::new();
    assert_eq!(classify_overlap(b.rect, side_wall.rect), Some(Side::Left));
    let gone = check_ball_collisions(&mut b, &mut colliders, &mut score);
    assert!(gone.is_empty());
    assert_eq!(b.velocity, Velocity { x: -200, y: 50 });
    // the ball has not moved: the same overlap is found again
    assert_eq!(classify_overlap(b.rect, side_wall.rect), Some(Side::Left));
    let gone = check_ball_collisions(&mut b, &mut colliders, &mut score);
    assert!(gone.is_empty());
    assert_eq!(b.velocity, Velocity { x: -200, y: 50 });
    assert_eq!(colliders, vec![side_wall]);
    assert_eq!(score.total(), 0);
}

#[test]
fn embedded_ball_does_not_oscillate() {
    let obstacles = vec![
        wall(1, 100, 0, 10, 200),
        wall(2, 70, 0, 10, 200),
        wall(3, 85, 16, 200, 10),
        wall(4, 85, 0, 400, 400),
    ];
    for (vx, vy) in [(200, 50), (-200, 50), (200, -50), (-200, -50), (0, 7), (7, 0)] {
        let mut b = ball(85, 0, vx, vy);
        let mut colliders = obstacles.clone();
        let mut score = Scoreboard::new();
        check_ball_collisions(&mut b, &mut colliders, &mut score);
        let once = b.velocity;
        for _ in 0..5 {
            check_ball_collisions(&mut b, &mut colliders, &mut score);
            assert_eq!(b.velocity, once);
        }
        assert_eq!(colliders, obstacles);
    }
}

#[test]
fn last_face_struck_on_an_axis_decides_the_sign() {
    // the ball sticks out of the first wall to the left and of the second to the right
    let first = wall(1, 100, 0, 10, 200);
    let second = wall(2, 70, 0, 10, 200);
    let mut score = Scoreboard::new();
    let mut b = ball(85, 0, 200, 50);
    assert_eq!(classify_overlap(b.rect, first.rect), Some(Side::Left));
    assert_eq!(classify_overlap(b.rect, second.rect), Some(Side::Right));
    check_ball_collisions(&mut b, &mut vec![first, second], &mut score);
    assert_eq!(b.velocity, Velocity { x: 200, y: 50 });
    let mut b = ball(85, 0, 200, 50);
    check_ball_collisions(&mut b, &mut vec![second, first], &mut score);
    assert_eq!(b.velocity, Velocity { x: -200, y: 50 });
    let mut b = ball(85, 0, -200, 50);
    check_ball_collisions(&mut b, &mut vec![first, second], &mut score);
    assert_eq!(b.velocity, Velocity { x: 200, y: 50 });
}

#[test]
fn corner_hit_reflects_both_components_in_one_pass() {
    let side_wall = wall(1, 100, 0, 10, 200);
    let ceiling = wall(2, 0, 20, 400, 10);
    let mut b = ball(85, 0, 200, 300);
    assert_eq!(classify_overlap(b.rect, side_wall.rect), Some(Side::Left));
    assert_eq!(classify_overlap(b.rect, ceiling.rect), Some(Side::Bottom));
    let mut colliders = vec![side_wall, ceiling];
    let mut score = Scoreboard::new();
    let gone = check_ball_collisions(&mut b, &mut colliders, &mut score);
    assert!(gone.is_empty());
    assert_eq!(b.velocity, Velocity { x: -200, y: -300 });
    assert_eq!(colliders.len(), 2);
}

#[test]
fn pass_keeps_the_speed_of_the_ball() {
    let obstacles = vec![
        Collider { id: 0, rect: rect(85, -20, 120, 20), kind: Kind::Paddle },
        wall(1, 100, 0, 10, 200),
        wall(2, 0, 20, 400, 10),
        wall(3, -500, 0, 10, 200),
        brick(4, 85, 0),
        brick(5, 1000, 1000),
    ];
    for (vx, vy) in [(200, 300), (-200, 300), (200, -300), (-200, -300), (1, 0), (0, -1)] {
        let mut b = ball(85, 0, vx, vy);
        let before = speed_squared(b.velocity);
        let mut colliders = obstacles.clone();
        let mut score = Scoreboard::new();
        check_ball_collisions(&mut b, &mut colliders, &mut score);
        assert_eq!(speed_squared(b.velocity), before);
        assert_eq!(b.velocity.x.abs(), vx.abs());
        assert_eq!(b.velocity.y.abs(), vy.abs());
        assert_eq!(b.rect, rect(85, 0, 30, 30));
    }
}

#[test]
fn single_brick_is_scored_once_among_many_obstacles() {
    let hit = brick(7, 0, -34);
    let before = vec![
        Collider { id: 0, rect: rect(0, -300, 120, 20), kind: Kind::Paddle },
        wall(1, -450, 0, 10, 610),
        wall(2, 450, 0, 10, 610),
        wall(3, 0, 300, 910, 10),
        wall(4, 0, -300, 910, 10),
        brick(5, -200, -34),
        brick(6, 200, -34),
        hit,
        brick(8, 0, 100),
    ];
    let mut colliders = before.clone();
    let mut b = ball(4, -4, 200, -200);
    let mut score = Scoreboard { score: 10 };
    let gone = check_ball_collisions(&mut b, &mut colliders, &mut score);
    assert_eq!(gone, vec![7]);
    assert_eq!(score.total(), 11);
    assert_eq!(colliders.len(), before.len() - 1);
    let mut expected = before.clone();
    expected.remove(7);
    assert_eq!(colliders, expected);
    // a later pass finds nothing left to score
    let gone = check_ball_collisions(&mut b, &mut colliders, &mut score);
    assert!(gone.is_empty());
    assert_eq!(score.total(), 11);
    assert_eq!(colliders, expected);
}

#[test]
fn every_brick_under_the_ball_goes_in_the_same_pass() {
    let mut colliders = vec![
        brick(5, -40, -34),
        wall(1, 0, -34, 400, 30),
        brick(6, 40, -34),
        brick(7, 300, 300),
    ];
    let mut b = ball(4, -4, 200, -200);
    let mut score = Scoreboard::new();
    let gone = check_ball_collisions(&mut b, &mut colliders, &mut score);
    assert_eq!(gone, vec![5, 6]);
    assert_eq!(score.total(), 2);
    assert_eq!(colliders, vec![wall(1, 0, -34, 400, 30), brick(7, 300, 300)]);
    assert_eq!(b.velocity, Velocity { x: 200, y: 200 });
}

#[test]
fn brick_is_destroyed_even_when_the_ball_already_leaves() {
    let mut colliders = vec![brick(5, 0, -34)];
    let mut b = ball(4, -4, 200, 200);
    let mut score = Scoreboard::new();
    let gone = check_ball_collisions(&mut b, &mut colliders, &mut score);
    assert_eq!(gone, vec![5]);
    assert_eq!(score.total(), 1);
    assert!(colliders.is_empty());
    assert_eq!(b.velocity, Velocity { x: 200, y: 200 });
}

#[test]
fn brick_around_the_ball_is_destroyed_without_a_bounce() {
    let around = Collider { id: 5, rect: rect(0, 0, 100, 100), kind: Kind::Brick };
    assert_eq!(classify_overlap(rect(4, -4, 30, 30), around.rect), Some(Side::Inside));
    let mut colliders = vec![around];
    let mut b = ball(4, -4, 200, -200);
    let mut score = Scoreboard::new();
    let gone = check_ball_collisions(&mut b, &mut colliders, &mut score);
    assert_eq!(gone, vec![5]);
    assert_eq!(score.total(), 1);
    assert_eq!(b.velocity, Velocity { x: 200, y: -200 });
}

#[test]
fn walls_and_paddle_are_never_removed() {
    let before = vec![
        Collider { id: 0, rect: rect(0, 0, 120, 20), kind: Kind::Paddle },
        wall(1, 0, 0, 10, 610),
    ];
    let mut colliders = before.clone();
    let mut b = ball(0, 0, 200, -200);
    let mut score = Scoreboard::new();
    let gone = check_ball_collisions(&mut b, &mut colliders, &mut score);
    assert!(gone.is_empty());
    assert_eq!(colliders, before);
    assert_eq!(score.total(), 0);
}

#[test]
fn pass_over_no_obstacles_changes_nothing() {
    let mut colliders: Vec<Collider> = Vec::new();
    let mut b = ball(0, 0, 200, -200);
    let mut score = Scoreboard { score: 3 };
    let gone = check_ball_collisions(&mut b, &mut colliders, &mut score);
    assert!(gone.is_empty());
    assert!(colliders.is_empty());
    assert_eq!(b, ball(0, 0, 200, -200));
    assert_eq!(score.total(), 3);
}

#[test]
fn score_wraps_in_the_middle_of_a_pass() {
    let mut colliders = vec![brick(5, -40, -34), brick(6, 40, -34)];
    let mut b = ball(4, -4, 200, -200);
    let mut score = Scoreboard { score: u64::MAX };
    let gone = check_ball_collisions(&mut b, &mut colliders, &mut score);
    assert_eq!(gone, vec![5, 6]);
    assert_eq!(score.total(), 1);
}
