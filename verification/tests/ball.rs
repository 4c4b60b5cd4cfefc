use rusty_arkanoid::ball::Ball;
use rusty_arkanoid::color::Rgb;
use rusty_arkanoid::units::{MICROS_PER_SECOND, UNITS_PER_PIXEL};
use rusty_arkanoid::vector::Vec2;

fn px(pixels: i64) -> i64 {
    pixels * UNITS_PER_PIXEL
}

fn at(x: i64, y: i64) -> Vec2 {
    Vec2 { x: px(x), y: px(y) }
}

fn window() -> Vec2 {
    at(1200, 900)
}

#[test]
fn new_ball_starts_at_the_launch_position() {
    let ball = Ball::new(window());
    assert_eq!(ball.position, at(600, 450));
    assert_eq!(ball.velocity, Vec2 { x: 0, y: px(7) });
    assert_eq!(ball.radius, px(10));
    assert_eq!(ball.color, Rgb { r: 255, g: 255, b: 255 });
    assert!(ball.active);
    assert_eq!(ball.respawn_timer, 0);
    assert_eq!(ball.collision_cooldown, 0);
    assert_eq!(ball.window_size, window());
    assert_eq!(ball.respawn_time, 3 * MICROS_PER_SECOND);
}

#[test]
fn new_ball_in_odd_window_rounds_down() {
    let ball = Ball::new(Vec2 { x: 1_001, y: 7 });
    assert_eq!(ball.position, Vec2 { x: 500, y: 3 });
}

#[test]
fn update_moves_by_velocity_whatever_the_time() {
    for delta_time in [0, 1, 16_667, 5 * MICROS_PER_SECOND] {
        let mut ball = Ball::new(window());
        ball.velocity = Vec2 { x: px(3), y: -px(4) };
        ball.update(delta_time, window());
        assert_eq!(ball.position, at(603, 446));
        assert_eq!(ball.velocity, Vec2 { x: px(3), y: -px(4) });
        assert!(ball.active);
    }
}

#[test]
fn update_bounces_off_the_left_wall() {
    let mut ball = Ball::new(window());
    ball.position = at(20, 400);
    ball.velocity = Vec2 { x: -px(5), y: px(1) };
    ball.update(16_667, window());
    // Centre at 15, leading edge at 5: within the margin.
    assert_eq!(ball.position, at(15, 401));
    assert_eq!(ball.velocity, Vec2 { x: px(5), y: px(1) });
}

#[test]
fn update_does_not_bounce_short_of_the_margin() {
    let mut ball = Ball::new(window());
    ball.position = at(20, 400);
    ball.velocity = Vec2 { x: -4_999, y: 0 };
    ball.update(16_667, window());
    assert_eq!(ball.velocity, Vec2 { x: -4_999, y: 0 });
}

#[test]
fn update_bounces_off_the_right_wall() {
    let mut ball = Ball::new(window());
    ball.position = at(1180, 400);
    ball.velocity = Vec2 { x: px(5), y: 0 };
    ball.update(16_667, window());
    // Centre at 1185: 1185 + 10 + 5 reaches the width.
    assert_eq!(ball.position, at(1185, 400));
    assert_eq!(ball.velocity, Vec2 { x: -px(5), y: 0 });
}

#[test]
fn update_bounces_off_top_and_bottom() {
    let mut ball = Ball::new(window());
    ball.position = at(600, 22);
    ball.velocity = Vec2 { x: 0, y: -px(7) };
    ball.update(16_667, window());
    assert_eq!(ball.velocity, Vec2 { x: 0, y: px(7) });

    let mut ball = Ball::new(window());
    ball.position = at(600, 880);
    ball.velocity = Vec2 { x: 0, y: px(7) };
    ball.update(16_667, window());
    assert_eq!(ball.position, at(600, 887));
    assert_eq!(ball.velocity, Vec2 { x: 0, y: -px(7) });
}

#[test]
fn update_bounces_in_a_corner_on_both_axes() {
    let mut ball = Ball::new(window());
    ball.position = at(20, 20);
    ball.velocity = Vec2 { x: -px(6), y: -px(8) };
    ball.update(16_667, window());
    assert_eq!(ball.velocity, Vec2 { x: px(6), y: px(8) });
}

#[test]
fn wall_bounce_goes_by_the_current_window() {
    let mut ball = Ball::new(window());
    ball.position = at(580, 400);
    ball.velocity = Vec2 { x: px(5), y: 0 };
    // The window has shrunk to 600 pixels: 585 + 10 + 5 reaches its width.
    ball.update(16_667, at(600, 900));
    assert_eq!(ball.velocity, Vec2 { x: -px(5), y: 0 });
    assert!(ball.active);
}

#[test]
fn ball_leaving_the_playfield_goes_out_of_play() {
    let mut ball = Ball::new(window());
    ball.position = at(3, 400);
    ball.velocity = Vec2 { x: -px(7), y: 0 };
    ball.collision_cooldown = 40_000;
    ball.update(16_667, window());
    assert!(!ball.active);
    assert_eq!(ball.position, at(-4, 400));
    assert_eq!(ball.respawn_timer, 3 * MICROS_PER_SECOND);
    // The wall turned it and the cooldown ran on in the same step.
    assert_eq!(ball.velocity, Vec2 { x: px(7), y: 0 });
    assert_eq!(ball.collision_cooldown, 23_333);
}

#[test]
fn ball_on_the_edge_stays_in_play() {
    let mut ball = Ball::new(window());
    ball.position = at(7, 400);
    ball.velocity = Vec2 { x: -px(7), y: 0 };
    ball.update(16_667, window());
    assert_eq!(ball.position, at(0, 400));
    assert!(ball.active);
}

#[test]
fn collision_cooldown_runs_down_to_zero() {
    let mut ball = Ball::new(window());
    ball.collision_cooldown = 50_000;
    ball.update(16_667, window());
    assert_eq!(ball.collision_cooldown, 33_333);
    ball.update(16_667, window());
    assert_eq!(ball.collision_cooldown, 16_666);
    ball.update(16_667, window());
    assert_eq!(ball.collision_cooldown, 0);
    ball.update(16_667, window());
    assert_eq!(ball.collision_cooldown, 0);
}

#[test]
fn inactive_ball_waits_in_place() {
    let mut ball = Ball::new(window());
    ball.position = at(-4, 400);
    ball.velocity = Vec2 { x: px(7), y: 0 };
    ball.collision_cooldown = 12;
    ball.despawn();
    assert!(!ball.active);
    assert_eq!(ball.respawn_timer, 3_000_000);
    let mut timer = ball.respawn_timer;
    for _ in 0..179 {
        ball.update(16_667, window());
        assert!(!ball.active);
        assert_eq!(ball.position, at(-4, 400));
        assert_eq!(ball.velocity, Vec2 { x: px(7), y: 0 });
        assert_eq!(ball.collision_cooldown, 12);
        assert_eq!(ball.respawn_timer, timer - 16_667);
        timer = ball.respawn_timer;
    }
    assert_eq!(timer, 16_607);
    ball.update(16_667, window());
    assert!(ball.active);
    assert_eq!(ball.respawn_timer, 0);
    assert_eq!(ball.position, at(600, 450));
    assert_eq!(ball.velocity, Vec2 { x: 0, y: px(7) });
}

#[test]
fn inactive_ball_respawns_when_timer_hits_zero_exactly() {
    let mut ball = Ball::new(window());
    ball.despawn();
    ball.update(3_000_000, window());
    assert!(ball.active);
    assert_eq!(ball.respawn_timer, 0);
}

#[test]
fn inactive_ball_with_no_time_passing_stays_inactive() {
    let mut ball = Ball::new(window());
    ball.despawn();
    let before = ball;
    ball.update(0, window());
    assert_eq!(ball, before);
}

#[test]
fn respawn_restores_launch_state() {
    let mut ball = Ball::new(window());
    ball.position = at(-40, 2000);
    ball.velocity = Vec2 { x: -px(6), y: -px(8) };
    ball.despawn();
    ball.respawn();
    assert!(ball.active);
    assert_eq!(ball.position, at(600, 450));
    assert_eq!(ball.velocity, Vec2 { x: 0, y: px(7) });
}

#[test]
fn respawn_goes_by_the_window_the_ball_was_made_for() {
    let mut ball = Ball::new(at(800, 600));
    ball.despawn();
    ball.update(3_000_000, window());
    assert_eq!(ball.position, at(400, 300));
}

#[test]
fn reset_position_and_velocity_touch_nothing_else() {
    let mut ball = Ball::new(window());
    ball.position = at(1, 2);
    ball.velocity = Vec2 { x: 3, y: 4 };
    ball.collision_cooldown = 5;
    ball.reset_position();
    assert_eq!(ball.position, at(600, 450));
    assert_eq!(ball.velocity, Vec2 { x: 3, y: 4 });
    ball.reset_velocity();
    assert_eq!(ball.velocity, Vec2 { x: 0, y: px(7) });
    assert_eq!(ball.collision_cooldown, 5);
}

#[test]
fn is_outside_window_tells_each_side() {
    let mut ball = Ball::new(window());
    assert!(!ball.is_outside_window());
    ball.position = at(0, 0);
    assert!(!ball.is_outside_window());
    ball.position = at(1200, 900);
    assert!(!ball.is_outside_window());
    ball.position = Vec2 { x: -1, y: px(10) };
    assert!(ball.is_outside_window());
    ball.position = Vec2 { x: px(1200) + 1, y: px(10) };
    assert!(ball.is_outside_window());
    ball.position = Vec2 { x: px(10), y: -1 };
    assert!(ball.is_outside_window());
    ball.position = Vec2 { x: px(10), y: px(900) + 1 };
    assert!(ball.is_outside_window());
}

#[test]
fn lost_ball_respawns_at_the_window_centre() {
    let mut ball = Ball::new(window());
    ball.position = at(600, 902);
    ball.velocity = Vec2 { x: 0, y: -px(7) };
    ball.active = false;
    ball.respawn();
    assert_eq!(ball.position, at(600, 450));
    assert_eq!(ball.velocity, Vec2 { x: 0, y: px(7) });
    assert!(ball.active);
}
