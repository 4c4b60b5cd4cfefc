use rusty_arkanoid::ball::Ball;
use rusty_arkanoid::block::Block;
use rusty_arkanoid::collision::{
    clamp, clamp_ball_velocity, closest_point, collision_ball_block, collision_ball_player,
    overlaps, reflect_velocity_block_to_ball, reflect_velocity_player_to_ball,
    COLLISION_COOLDOWN_TIME, COLLISION_MARGIN,
};
use rusty_arkanoid::player::Player;
use rusty_arkanoid::units::UNITS_PER_PIXEL;
use rusty_arkanoid::vector::Vec2;

fn px(pixels: i64) -> i64 {
    pixels * UNITS_PER_PIXEL
}

fn at(x: i64, y: i64) -> Vec2 {
    Vec2 { x: px(x), y: px(y) }
}

fn window() -> Vec2 {
    at(1200, 900)
}

fn ball_at(x: i64, y: i64, vx: i64, vy: i64) -> Ball {
    let mut ball = Ball::new(window());
    ball.position = at(x, y);
    ball.velocity = Vec2 { x: vx, y: vy };
    ball
}

fn block_at(x: i64, y: i64) -> Block {
    Block::new(at(x, y))
}

fn paddle_at(x: i64, y: i64, vx: i64, vy: i64) -> Player {
    let mut player = Player::new(window());
    player.position = at(x, y);
    player.velocity = Vec2 { x: vx, y: vy };
    player
}

fn speed_sq(ball: &Ball) -> i128 {
    let x = ball.velocity.x as i128;
    let y = ball.velocity.y as i128;
    x * x + y * y
}

const MIN_SQ: i128 = 49_000_000;
const MAX_SQ: i128 = 100_000_000;

#[test]
fn constants_are_in_fixed_point_units() {
    assert_eq!(UNITS_PER_PIXEL, 1000);
    assert_eq!(COLLISION_MARGIN, 10 * UNITS_PER_PIXEL * UNITS_PER_PIXEL);
    assert_eq!(COLLISION_COOLDOWN_TIME, 50_000);
    assert_eq!(Ball::DEFAULT_BALL_SPEED, px(7));
    assert_eq!(Ball::MAX_BALL_SPEED, px(10));
    assert_eq!(Ball::DEFAULT_BALL_RADIUS, px(10));
    assert_eq!(Block::BLOCK_SIZE, px(40));
}

#[test]
fn clamp_returns_the_nearest_bound() {
    assert_eq!(clamp(5, 10, 20), 10);
    assert_eq!(clamp(25, 10, 20), 20);
    assert_eq!(clamp(15, 10, 20), 15);
    assert_eq!(clamp(10, 10, 20), 10);
    assert_eq!(clamp(20, 10, 20), 20);
    assert_eq!(clamp(-7, -3, 3), -3);
}

#[test]
fn closest_point_clamps_each_coordinate() {
    let size = at(40, 40);
    // Above and to the left: the corner.
    assert_eq!(closest_point(&ball_at(80, 90, 0, 0), at(95, 95), size), at(95, 95));
    // Inside: the centre itself.
    assert_eq!(closest_point(&ball_at(100, 100, 0, 0), at(95, 95), size), at(100, 100));
    // To the right, level with the block: the right edge.
    assert_eq!(closest_point(&ball_at(200, 110, 0, 0), at(95, 95), size), at(135, 110));
    // Below: the bottom edge.
    assert_eq!(closest_point(&ball_at(100, 300, 0, 0), at(95, 95), size), at(100, 135));
}

#[test]
fn overlap_when_center_inside_rectangle() {
    let ball = ball_at(100, 100, 0, px(7));
    assert!(overlaps(&ball, at(95, 95), at(40, 40)));
}

#[test]
fn no_overlap_when_ball_is_out_of_play() {
    let mut ball = ball_at(100, 100, 0, px(7));
    ball.active = false;
    assert!(!overlaps(&ball, at(95, 95), at(40, 40)));
    assert!(!collision_ball_block(&ball, &block_at(95, 95)));
    assert!(!collision_ball_player(&ball, &paddle_at(95, 95, 0, 0)));
}

#[test]
fn no_overlap_beyond_the_radius() {
    // Eleven pixels above the top edge with a radius of ten.
    let ball = ball_at(110, 84, 0, px(7));
    assert!(!overlaps(&ball, at(95, 95), at(40, 40)));
}

#[test]
fn overlap_test_keeps_a_margin() {
    // 9.5 pixels from the edge: 90.25 + 10 > 100, so no overlap.
    let mut ball = ball_at(110, 85, 0, px(7));
    ball.position.y = 85_500;
    assert!(!overlaps(&ball, at(95, 95), at(40, 40)));
    // 9.486 pixels: 89.98 + 10 <= 100.
    ball.position.y = 85_514;
    assert!(overlaps(&ball, at(95, 95), at(40, 40)));
    // Exactly on the limit: a distance whose square is ninety square pixels
    // does not exist in whole units, the nearest below it overlaps.
    ball.position.y = 85_513;
    assert!(!overlaps(&ball, at(95, 95), at(40, 40)));
}

#[test]
fn small_ball_inside_rectangle_fails_the_margin() {
    let mut ball = ball_at(100, 100, 0, px(7));
    ball.radius = px(3);
    assert!(!overlaps(&ball, at(95, 95), at(40, 40)));
    ball.radius = 3_163;
    assert!(overlaps(&ball, at(95, 95), at(40, 40)));
}

#[test]
fn fallen_block_is_never_hit() {
    let ball = ball_at(100, 100, 0, px(7));
    let mut block = block_at(95, 95);
    assert!(collision_ball_block(&ball, &block));
    block.active = false;
    assert!(!collision_ball_block(&ball, &block));
}

#[test]
fn center_inside_block_then_block_falls() {
    let mut ball = ball_at(100, 100, 0, px(7));
    let mut block = block_at(95, 95);
    assert!(collision_ball_block(&ball, &block));
    reflect_velocity_block_to_ball(&mut ball, &block);
    block.active = false;
    assert!(!block.active);
    assert!(!collision_ball_block(&ball, &block));
    // The centre lay in the block: the cooldown started, nothing else changed.
    assert_eq!(ball.position, at(100, 100));
    assert_eq!(ball.velocity, Vec2 { x: 0, y: px(7) });
    assert_eq!(ball.collision_cooldown, COLLISION_COOLDOWN_TIME);
}

#[test]
fn head_on_hit_flips_the_vertical_velocity() {
    // Eight pixels above the top edge of the block, moving straight down.
    let mut ball = ball_at(120, 92, 0, px(5));
    let block = block_at(100, 100);
    assert!(collision_ball_block(&ball, &block));
    reflect_velocity_block_to_ball(&mut ball, &block);
    // Mirrored to (0, -5), then brought up to the least speed.
    assert_eq!(ball.velocity, Vec2 { x: 0, y: -px(7) });
    // Pushed out by the two pixels that it had sunk in.
    assert_eq!(ball.position, at(120, 90));
    assert_eq!(ball.collision_cooldown, COLLISION_COOLDOWN_TIME);
}

#[test]
fn head_on_reflection_keeps_the_horizontal_velocity() {
    let v = Vec2 { x: 0, y: px(5) };
    assert_eq!(v.reflect(Vec2 { x: 0, y: -px(8) }), Vec2 { x: 0, y: -px(5) });
    let v = Vec2 { x: px(3), y: px(8) };
    assert_eq!(v.reflect(Vec2 { x: 0, y: -1 }), Vec2 { x: px(3), y: -px(8) });
    assert_eq!(v.reflect(Vec2 { x: 17, y: 0 }), Vec2 { x: -px(3), y: px(8) });
}

#[test]
fn side_hit_flips_the_horizontal_velocity() {
    // Six pixels left of the block's left edge, moving right and down.
    let mut ball = ball_at(94, 120, px(6), px(8));
    let block = block_at(100, 100);
    reflect_velocity_block_to_ball(&mut ball, &block);
    assert_eq!(ball.velocity, Vec2 { x: -px(6), y: px(8) });
    assert_eq!(ball.position, at(90, 120));
}

#[test]
fn reflection_is_skipped_during_cooldown() {
    let mut ball = ball_at(120, 92, 0, px(5));
    ball.collision_cooldown = 1;
    let before = ball;
    reflect_velocity_block_to_ball(&mut ball, &block_at(100, 100));
    assert_eq!(ball, before);
    reflect_velocity_player_to_ball(&mut ball, &paddle_at(100, 100, 0, 0));
    assert_eq!(ball, before);
}

#[test]
fn cooldown_blocks_a_second_reflection() {
    let mut ball = ball_at(120, 92, 0, px(5));
    let block = block_at(100, 100);
    reflect_velocity_block_to_ball(&mut ball, &block);
    let after_first = ball;
    reflect_velocity_block_to_ball(&mut ball, &block);
    assert_eq!(ball, after_first);
}

#[test]
fn reflection_off_fallen_block_does_nothing() {
    let mut ball = ball_at(120, 92, 0, px(5));
    let mut block = block_at(100, 100);
    block.active = false;
    let before = ball;
    reflect_velocity_block_to_ball(&mut ball, &block);
    assert_eq!(ball, before);
}

#[test]
fn reflection_of_ball_out_of_play_does_nothing() {
    let mut ball = ball_at(120, 92, 0, px(5));
    ball.active = false;
    let before = ball;
    reflect_velocity_block_to_ball(&mut ball, &block_at(100, 100));
    assert_eq!(ball, before);
    reflect_velocity_player_to_ball(&mut ball, &paddle_at(100, 100, px(4), 0));
    assert_eq!(ball, before);
}

#[test]
fn center_inside_paddle_reverses_the_velocity() {
    let mut ball = ball_at(150, 810, px(3), px(5));
    let player = paddle_at(100, 800, px(4), 0);
    reflect_velocity_player_to_ball(&mut ball, &player);
    // Reversed as it is: the speed is not clamped here.
    assert_eq!(ball.velocity, Vec2 { x: -px(3), y: -px(5) });
    assert_eq!(ball.position, at(150, 810));
    assert_eq!(ball.collision_cooldown, COLLISION_COOLDOWN_TIME);
}

#[test]
fn paddle_at_rest_reflects_like_a_wall() {
    // The ball sits off the paddle's top-left corner: the normal is (-3, -4).
    let normal = Vec2 { x: -px(3), y: -px(4) };
    let incoming = Vec2 { x: px(3), y: px(5) };
    let plain = incoming.reflect(normal);
    assert_eq!(plain, Vec2 { x: -3_960, y: -4_280 });

    let mut ball = ball_at(97, 796, px(3), px(5));
    let player = paddle_at(100, 800, 0, 0);
    reflect_velocity_player_to_ball(&mut ball, &player);
    // (-3960, -4280) has speed 5830.95..., below the least: scaled to
    // (-4753.94..., -5138.10...), each coordinate rounded away from zero.
    assert_eq!(ball.velocity, Vec2 { x: -4_754, y: -5_139 });
    // Five pixels from the corner with a radius of ten: pushed out by five.
    assert_eq!(ball.position, at(94, 792));

    let mut other = ball_at(97, 796, px(3), px(5));
    let mut block = block_at(100, 800);
    block.active = true;
    reflect_velocity_block_to_ball(&mut other, &block);
    assert_eq!(other.velocity, ball.velocity);
    assert_eq!(other.position, ball.position);
}

#[test]
fn moving_paddle_adds_to_the_reflection() {
    let normal = Vec2 { x: -px(3), y: -px(4) };
    let incoming = Vec2 { x: px(3), y: px(5) };
    let paddle = Vec2 { x: px(4), y: 0 };
    let plain = incoming.reflect(normal);
    let relative = Vec2 { x: incoming.x - paddle.x, y: incoming.y - paddle.y };
    let mirrored = relative.reflect(normal);
    assert_eq!(mirrored, Vec2 { x: -5_080, y: -440 });
    let with_paddle = Vec2 { x: mirrored.x + paddle.x, y: mirrored.y + paddle.y };
    assert_eq!(with_paddle, Vec2 { x: -1_080, y: -440 });
    // The unit normal is (-0.6, -0.8); the paddle adds 2 * (4 * -0.6) times it.
    assert_eq!(with_paddle.x - plain.x, 2_880);
    assert_eq!(with_paddle.y - plain.y, 3_840);

    let mut ball = ball_at(97, 796, px(3), px(5));
    let player = paddle_at(100, 800, px(4), 0);
    reflect_velocity_player_to_ball(&mut ball, &player);
    // (-1080, -440) has speed 1166.19..., scaled to (-6482.68..., -2641.09...).
    assert_eq!(ball.velocity, Vec2 { x: -6_483, y: -2_642 });
    assert_eq!(ball.position, at(94, 792));
}

#[test]
fn push_takes_the_centre_a_radius_away_from_the_corner() {
    // One pixel left of and above the paddle's corner: the normal (-1, -1)
    // grows to (-7071.06..., -7071.06...), rounded away from zero.
    let mut ball = ball_at(99, 799, 0, px(8));
    let player = paddle_at(100, 800, 0, 0);
    reflect_velocity_player_to_ball(&mut ball, &player);
    assert_eq!(ball.position, Vec2 { x: px(100) - 7_072, y: px(800) - 7_072 });
    // Mirrored about the diagonal: down becomes left.
    assert_eq!(ball.velocity, Vec2 { x: -px(8), y: 0 });

    // A normal of a single unit: the push is a whole radius less that unit.
    let mut ball = ball_at(120, 100, 0, px(8));
    ball.position.y = px(100) - 1;
    reflect_velocity_block_to_ball(&mut ball, &block_at(100, 100));
    assert_eq!(ball.position, at(120, 90));
}

#[test]
fn no_push_when_ball_does_not_reach_in() {
    // Fifteen pixels above the block: further than the radius.
    let mut ball = ball_at(120, 85, 0, px(8));
    reflect_velocity_block_to_ball(&mut ball, &block_at(100, 100));
    assert_eq!(ball.velocity, Vec2 { x: 0, y: -px(8) });
    assert_eq!(ball.position, at(120, 85));
}

#[test]
fn clamp_ball_velocity_scales_slow_ball_up() {
    let mut ball = ball_at(0, 0, px(3), px(4));
    clamp_ball_velocity(&mut ball);
    assert_eq!(ball.velocity, Vec2 { x: 4_200, y: 5_600 });
    let mut ball = ball_at(0, 0, -px(3), px(4));
    clamp_ball_velocity(&mut ball);
    assert_eq!(ball.velocity, Vec2 { x: -4_200, y: 5_600 });
    let mut ball = ball_at(0, 0, 1, 0);
    clamp_ball_velocity(&mut ball);
    assert_eq!(ball.velocity, Vec2 { x: px(7), y: 0 });
}

#[test]
fn clamp_ball_velocity_scales_fast_ball_down() {
    let mut ball = ball_at(0, 0, px(12), px(16));
    clamp_ball_velocity(&mut ball);
    assert_eq!(ball.velocity, Vec2 { x: px(6), y: px(8) });
    let mut ball = ball_at(0, 0, 0, -px(500));
    clamp_ball_velocity(&mut ball);
    assert_eq!(ball.velocity, Vec2 { x: 0, y: -px(10) });
    // Scaled to (9999.50..., 99.99...), each coordinate rounded toward zero.
    let mut ball = ball_at(0, 0, 10_000, 100);
    clamp_ball_velocity(&mut ball);
    assert_eq!(ball.velocity, Vec2 { x: 9_999, y: 99 });
    let mut ball = ball_at(0, 0, -px(20), px(1));
    clamp_ball_velocity(&mut ball);
    assert_eq!(ball.velocity, Vec2 { x: -9_987, y: 499 });
}

#[test]
fn clamp_ball_velocity_takes_the_largest_velocities() {
    let mut ball = ball_at(0, 0, i64::MAX, i64::MIN);
    clamp_ball_velocity(&mut ball);
    assert_eq!(ball.velocity, Vec2 { x: 7_071, y: -7_071 });
    let mut ball = ball_at(0, 0, i64::MIN, 0);
    clamp_ball_velocity(&mut ball);
    assert_eq!(ball.velocity, Vec2 { x: -px(10), y: 0 });
}

#[test]
fn clamp_ball_velocity_rounds_once() {
    // (3, -5) scaled to the least speed is (3601.47..., -6002.45...).
    let mut ball = ball_at(0, 0, px(3), -px(5));
    clamp_ball_velocity(&mut ball);
    assert_eq!(ball.velocity, Vec2 { x: 3_602, y: -6_003 });
    // The slowest of all: (1, 1) scaled to (4949.74..., 4949.74...).
    let mut ball = ball_at(0, 0, 1, 1);
    clamp_ball_velocity(&mut ball);
    assert_eq!(ball.velocity, Vec2 { x: 4_950, y: 4_950 });
}

#[test]
fn clamped_coordinates_are_within_one_unit_of_the_exact_ones() {
    let values: [i64; 9] = [1, -2, 17, 999, -3_000, 5_000, -6_999, 12_345, 1_000_003];
    for &x in &values {
        for &y in &values {
            let speed = ((x as f64) * (x as f64) + (y as f64) * (y as f64)).sqrt();
            if (7_000.0..=10_000.0).contains(&speed) {
                continue;
            }
            let target = if speed < 7_000.0 { 7_000.0 } else { 10_000.0 };
            let mut ball = ball_at(0, 0, x, y);
            clamp_ball_velocity(&mut ball);
            assert!((ball.velocity.x as f64 - x as f64 * target / speed).abs() < 1.0);
            assert!((ball.velocity.y as f64 - y as f64 * target / speed).abs() < 1.0);
        }
    }
}

#[test]
fn ball_on_top_of_resting_paddle_bounces_up() {
    // Five pixels above the top edge of a paddle at rest.
    let mut ball = ball_at(550, 795, px(3), px(5));
    let player = paddle_at(500, 800, 0, 0);
    assert!(collision_ball_player(&ball, &player));
    reflect_velocity_player_to_ball(&mut ball, &player);
    // Mirrored to (3, -5), then scaled to the least speed.
    assert_eq!(ball.velocity, Vec2 { x: 3_602, y: -6_003 });
    assert_eq!(ball.position, at(550, 790));
    assert_eq!(ball.collision_cooldown, COLLISION_COOLDOWN_TIME);
}

#[test]
fn clamp_ball_velocity_keeps_speed_in_range() {
    for v in [(0, px(7)), (px(7), 0), (px(6), px(8)), (0, -px(10)), (5_000, 5_000), (-7_071, 7_071)]
    {
        let mut ball = ball_at(0, 0, v.0, v.1);
        clamp_ball_velocity(&mut ball);
        assert_eq!(ball.velocity, Vec2 { x: v.0, y: v.1 });
    }
}

#[test]
fn clamp_ball_velocity_keeps_ball_at_rest() {
    let mut ball = ball_at(0, 0, 0, 0);
    let before = ball;
    clamp_ball_velocity(&mut ball);
    assert_eq!(ball, before);
}

#[test]
fn clamp_ball_velocity_changes_only_the_velocity() {
    let mut ball = ball_at(33, 44, px(1), px(1));
    ball.collision_cooldown = 7;
    ball.respawn_timer = 9;
    let before = ball;
    clamp_ball_velocity(&mut ball);
    assert_ne!(ball.velocity, before.velocity);
    ball.velocity = before.velocity;
    assert_eq!(ball, before);
}

#[test]
fn clamp_ball_velocity_is_idempotent() {
    let mut values: Vec<i64> = vec![0, 1, -1, 2, 3, 999, -4_949, 4_950, 7_000, -7_071, 9_999];
    values.extend([10_000, 10_001, -65_537, 1_000_003, i64::MAX, i64::MIN]);
    for &x in &values {
        for &y in &values {
            let mut ball = ball_at(0, 0, x, y);
            clamp_ball_velocity(&mut ball);
            let once = ball.velocity;
            if x != 0 || y != 0 {
                assert!(MIN_SQ <= speed_sq(&ball) && speed_sq(&ball) <= MAX_SQ, "{x} {y}");
            }
            clamp_ball_velocity(&mut ball);
            assert_eq!(ball.velocity, once);
        }
    }
}

#[test]
fn speed_after_reflection_is_in_range() {
    let block = block_at(100, 100);
    let player = paddle_at(100, 100, px(6), 0);
    // Every centre lies outside the block and outside the paddle.
    for (x, y) in [(94, 92), (120, 92), (145, 95), (205, 120), (143, 146), (90, 141), (96, 97)] {
        for (vx, vy) in [(0, px(7)), (px(3), px(5)), (-px(20), px(1)), (1, 0), (-px(6), -px(8))] {
            let mut ball = ball_at(x, y, vx, vy);
            reflect_velocity_block_to_ball(&mut ball, &block);
            assert!(MIN_SQ <= speed_sq(&ball) && speed_sq(&ball) <= MAX_SQ);
            let mut ball = ball_at(x, y, vx, vy);
            reflect_velocity_player_to_ball(&mut ball, &player);
            assert!(MIN_SQ <= speed_sq(&ball) && speed_sq(&ball) <= MAX_SQ);
        }
    }
}

#[test]
fn reversal_inside_paddle_keeps_the_speed() {
    let mut ball = ball_at(149, 120, 1, 0);
    reflect_velocity_player_to_ball(&mut ball, &paddle_at(100, 100, px(6), 0));
    assert_eq!(ball.velocity, Vec2 { x: -1, y: 0 });
}

#[test]
fn paddle_reflection_can_leave_ball_at_rest() {
    // Relative to the paddle the ball moves straight up at the paddle's own
    // speed; mirrored, that cancels the paddle's velocity.
    let mut ball = ball_at(150, 790, 0, px(12));
    let player = paddle_at(100, 800, 0, px(6));
    reflect_velocity_player_to_ball(&mut ball, &player);
    assert_eq!(ball.velocity, Vec2 { x: 0, y: 0 });
}
