//! Collisions of the ball with blocks and with the paddle: the overlap test
//! of a circle with an axis-aligned rectangle, the reflection of the ball's
//! velocity, the limits on its speed, and the push that takes it out of the
//! rectangle.

use crate::arith::{
    lemma_scaled_down, lemma_scaled_up, lemma_square_is_monotone, lemma_square_of_magnitude,
    lemma_square_order, magnitude, scale_down, scale_up, scaled_down, scaled_up, with_sign_of,
    SCALE_TARGET_LIMIT,
};
use crate::ball::{Ball, BallView};
use crate::block::{Block, BlockView};
use crate::player::{Player, PlayerView};
use crate::units::MAX_EXTENT;
use crate::vector::{lemma_norm_sq_is_positive, Vec2, Vector};
use vstd::prelude::*;

verus! {

/// Slack of the overlap test, in squared length units (ten square pixels):
/// the squared distance of the ball's centre from the rectangle must fall
/// short of the squared radius by this much.
pub const COLLISION_MARGIN: i64 = 10_000_000;

/// Time after a reflection during which the ball ignores further ones: a
/// twentieth of a second.
pub const COLLISION_COOLDOWN_TIME: u64 = 50_000;

/// `value` brought into `[min, max]`.
pub open spec fn clamped(value: int, min: int, max: int) -> int {
    if value < min {
        min
    } else if value > max {
        max
    } else {
        value
    }
}

/// The point of the rectangle at `origin` with extent `size` that lies
/// nearest to `point`.
pub open spec fn closest_point_on_rect(point: Vector, origin: Vector, size: Vector) -> Vector {
    Vector {
        x: clamped(point.x, origin.x, origin.x + size.x),
        y: clamped(point.y, origin.y, origin.y + size.y),
    }
}

/// The vector from the rectangle's nearest point to the ball's centre.
pub open spec fn contact_normal(ball: BallView, origin: Vector, size: Vector) -> Vector {
    ball.position.minus(closest_point_on_rect(ball.position, origin, size))
}

/// A rectangle that the collision functions accept: no negative extent, and
/// coordinates within the library's limits.
pub open spec fn rect_wf(origin: Vector, size: Vector) -> bool {
    origin.within(MAX_EXTENT as int) && size.within_positive(MAX_EXTENT as int)
}

/// Whether a ball in play reaches into the rectangle.
pub open spec fn overlaps_rect(ball: BallView, origin: Vector, size: Vector) -> bool {
    ball.active && contact_normal(ball, origin, size).norm_sq() + COLLISION_MARGIN
        <= ball.radius * ball.radius
}

/// The velocity with its speed brought into the range from
/// `Ball::DEFAULT_BALL_SPEED` to `Ball::MAX_BALL_SPEED`, its direction kept.
/// A ball too slow is scaled up to the least speed: each coordinate becomes
/// the coordinate times the least speed over the speed, rounded away from
/// zero to a whole unit. A ball too fast is scaled down to the greatest
/// speed in the same way, each coordinate rounded toward zero. No rounding
/// but that one takes place. A ball at rest stays at rest.
pub open spec fn clamped_speed(velocity: Vector) -> Vector {
    let speed_sq = velocity.norm_sq();
    if speed_sq == 0 {
        velocity
    } else if speed_sq < Ball::DEFAULT_BALL_SPEED * Ball::DEFAULT_BALL_SPEED {
        Vector {
            x: with_sign_of(
                scaled_up(velocity.x, Ball::DEFAULT_BALL_SPEED as int, speed_sq),
                velocity.x,
            ),
            y: with_sign_of(
                scaled_up(velocity.y, Ball::DEFAULT_BALL_SPEED as int, speed_sq),
                velocity.y,
            ),
        }
    } else if speed_sq > Ball::MAX_BALL_SPEED * Ball::MAX_BALL_SPEED {
        Vector {
            x: with_sign_of(
                scaled_down(velocity.x, Ball::MAX_BALL_SPEED as int, speed_sq),
                velocity.x,
            ),
            y: with_sign_of(
                scaled_down(velocity.y, Ball::MAX_BALL_SPEED as int, speed_sq),
                velocity.y,
            ),
        }
    } else {
        velocity
    }
}

/// The displacement that takes a ball which reaches into a rectangle back
/// out of it: along `normal`, until the centre is a radius away from the
/// point of the rectangle nearest to it. Each coordinate of `normal` grows
/// to that coordinate times the radius over the length of `normal`, rounded
/// away from zero to a whole unit; no rounding but that one takes place. No
/// displacement where `normal` is at least a radius long.
pub open spec fn penetration_push(normal: Vector, radius: int) -> Vector
    recommends
        !normal.is_zero(),
{
    let distance_sq = normal.norm_sq();
    if radius * radius > distance_sq {
        Vector {
            x: with_sign_of(scaled_up(normal.x, radius, distance_sq), normal.x) - normal.x,
            y: with_sign_of(scaled_up(normal.y, radius, distance_sq), normal.y) - normal.y,
        }
    } else {
        Vector::zero()
    }
}

/// The ball after `reflect_velocity_block_to_ball`. A ball out of play, a
/// fallen block and a ball in its cooldown change nothing. Otherwise the
/// cooldown starts; and unless the ball's centre lies in the block, the
/// velocity is mirrored about the contact normal and its speed clamped, and
/// the ball is pushed out of the block.
pub open spec fn reflected_off_block(ball: BallView, block: BlockView) -> BallView {
    let normal = contact_normal(ball, block.position, BlockView::size());
    if !ball.active || !block.active || ball.collision_cooldown > 0 {
        ball
    } else if normal.is_zero() {
        BallView { collision_cooldown: COLLISION_COOLDOWN_TIME as nat, ..ball }
    } else {
        BallView {
            velocity: clamped_speed(ball.velocity.reflected(normal)),
            position: ball.position.plus(penetration_push(normal, ball.radius)),
            collision_cooldown: COLLISION_COOLDOWN_TIME as nat,
            ..ball
        }
    }
}

/// The ball after `reflect_velocity_player_to_ball`. A ball out of play and
/// a ball in its cooldown change nothing. Otherwise the cooldown starts.
/// Where the ball's centre lies in the paddle, the velocity is reversed.
/// Elsewhere the velocity relative to the paddle is mirrored about the
/// contact normal, the paddle's velocity is added back, the speed is
/// clamped, and the ball is pushed out of the paddle.
pub open spec fn reflected_off_player(ball: BallView, player: PlayerView) -> BallView {
    let normal = contact_normal(ball, player.position, player.size);
    if !ball.active || ball.collision_cooldown > 0 {
        ball
    } else if normal.is_zero() {
        BallView {
            velocity: ball.velocity.negated(),
            collision_cooldown: COLLISION_COOLDOWN_TIME as nat,
            ..ball
        }
    } else {
        BallView {
            velocity: clamped_speed(
                ball.velocity.minus(player.velocity).reflected(normal).plus(player.velocity),
            ),
            position: ball.position.plus(penetration_push(normal, ball.radius)),
            collision_cooldown: COLLISION_COOLDOWN_TIME as nat,
            ..ball
        }
    }
}

/// Whether a velocity's speed lies in the range that a reflection leaves,
/// both ends included.
pub open spec fn speed_in_range(velocity: Vector) -> bool {
    Ball::DEFAULT_BALL_SPEED * Ball::DEFAULT_BALL_SPEED <= velocity.norm_sq()
        <= Ball::MAX_BALL_SPEED * Ball::MAX_BALL_SPEED
}

/// Scaling a slow velocity up gives a speed in range.
proof fn lemma_scaled_up_in_range(v: Vector)
    requires
        0 < v.norm_sq() < Ball::DEFAULT_BALL_SPEED * Ball::DEFAULT_BALL_SPEED,
    ensures
        speed_in_range(clamped_speed(v)),
{
    let q = v.norm_sq();
    let t = Ball::DEFAULT_BALL_SPEED as int;
    let x = scaled_up(v.x, t, q);
    let y = scaled_up(v.y, t, q);
    lemma_scaled_up(v.x, t, q);
    lemma_scaled_up(v.y, t, q);
    let xx = x * x;
    let yy = y * y;
    let aa = v.x * v.x;
    let bb = v.y * v.y;
    let tt = t * t;
    assert(aa >= 0 && bb >= 0) by (nonlinear_arith)
        requires
            aa == v.x * v.x,
            bb == v.y * v.y,
    ;
    // Rounded up, the two coordinates together reach the least speed.
    assert(xx + yy >= tt) by (nonlinear_arith)
        requires
            xx * q >= tt * aa,
            yy * q >= tt * bb,
            aa + bb == q,
            q > 0,
    ;
    // No coordinate exceeds the least speed, so the two together stay below
    // the greatest.
    assert(x <= t && y <= t) by (nonlinear_arith)
        requires
            x > 0 ==> (x - 1) * (x - 1) * q < tt * aa,
            y > 0 ==> (y - 1) * (y - 1) * q < tt * bb,
            0 <= aa <= q,
            0 <= bb <= q,
            tt == t * t,
            t > 0,
    ;
    lemma_square_is_monotone(x, t);
    lemma_square_is_monotone(y, t);
    assert((-x) * (-x) == xx && (-y) * (-y) == yy) by (nonlinear_arith)
        requires
            xx == x * x,
            yy == y * y,
    ;
}

/// Scaling a fast velocity down gives a speed in range.
proof fn lemma_scaled_down_in_range(v: Vector)
    requires
        v.norm_sq() > Ball::MAX_BALL_SPEED * Ball::MAX_BALL_SPEED,
    ensures
        speed_in_range(clamped_speed(v)),
{
    let q = v.norm_sq();
    let t = Ball::MAX_BALL_SPEED as int;
    let x = scaled_down(v.x, t, q);
    let y = scaled_down(v.y, t, q);
    lemma_scaled_down(v.x, t, q);
    lemma_scaled_down(v.y, t, q);
    let xx = x * x;
    let yy = y * y;
    let aa = v.x * v.x;
    let bb = v.y * v.y;
    let tt = t * t;
    assert(aa >= 0 && bb >= 0) by (nonlinear_arith)
        requires
            aa == v.x * v.x,
            bb == v.y * v.y,
    ;
    // Rounded down, the two coordinates together stay below the greatest speed.
    assert(xx + yy <= tt) by (nonlinear_arith)
        requires
            xx * q <= tt * aa,
            yy * q <= tt * bb,
            aa + bb == q,
            q > 0,
    ;
    // The longer coordinate alone keeps the speed above the least.
    if aa >= bb {
        lemma_long_coordinate_stays_long(aa, q, x);
        lemma_square_is_monotone(Ball::DEFAULT_BALL_SPEED as int, x);
    } else {
        lemma_long_coordinate_stays_long(bb, q, y);
        lemma_square_is_monotone(Ball::DEFAULT_BALL_SPEED as int, y);
    }
    assert(xx >= 0 && yy >= 0) by (nonlinear_arith)
        requires
            xx == x * x,
            yy == y * y,
    ;
    assert((-x) * (-x) == xx && (-y) * (-y) == yy) by (nonlinear_arith)
        requires
            xx == x * x,
            yy == y * y,
    ;
}

/// A coordinate that carries at least half of a velocity's squared speed
/// is, scaled down to the greatest speed, still at least the least speed.
proof fn lemma_long_coordinate_stays_long(aa: int, q: int, x: int)
    requires
        q > 0,
        2 * aa >= q,
        0 <= x,
        Ball::MAX_BALL_SPEED * Ball::MAX_BALL_SPEED * aa < (x + 1) * (x + 1) * q,
    ensures
        x >= Ball::DEFAULT_BALL_SPEED,
{
    let s = (x + 1) * (x + 1);
    assert(2 * s > 100_000_000) by (nonlinear_arith)
        requires
            100_000_000 * aa < s * q,
            2 * aa >= q,
            q > 0,
    ;
    assert(x >= 7_000) by (nonlinear_arith)
        requires
            0 <= x,
            2 * ((x + 1) * (x + 1)) > 100_000_000,
    ;
}

/// A reflection leaves no speed outside the range: whatever moves, moves
/// at a speed in range once its speed has been clamped.
pub proof fn lemma_clamped_speed_in_range(velocity: Vector)
    requires
        !velocity.is_zero(),
    ensures
        speed_in_range(clamped_speed(velocity)),
{
    let q = velocity.norm_sq();
    lemma_norm_sq_is_positive(velocity);
    if q < Ball::DEFAULT_BALL_SPEED * Ball::DEFAULT_BALL_SPEED {
        lemma_scaled_up_in_range(velocity);
    } else if q > Ball::MAX_BALL_SPEED * Ball::MAX_BALL_SPEED {
        lemma_scaled_down_in_range(velocity);
    }
}

/// Clamping the speed of a velocity whose speed is in range changes nothing.
pub proof fn lemma_clamped_speed_keeps_speed_in_range(velocity: Vector)
    requires
        speed_in_range(velocity),
    ensures
        clamped_speed(velocity) == velocity,
{
}

/// Clamping the speed twice is clamping it once.
pub proof fn lemma_clamped_speed_is_idempotent(velocity: Vector)
    ensures
        clamped_speed(clamped_speed(velocity)) == clamped_speed(velocity),
{
    lemma_norm_sq_is_positive(velocity);
    if !velocity.is_zero() {
        lemma_clamped_speed_in_range(velocity);
    }
}

/// After clamping, no coordinate of the velocity exceeds the greatest speed.
pub proof fn lemma_clamped_speed_is_bounded(velocity: Vector)
    ensures
        clamped_speed(velocity).within(Ball::MAX_BALL_SPEED as int),
{
    let w = clamped_speed(velocity);
    lemma_norm_sq_is_positive(velocity);
    if !velocity.is_zero() {
        lemma_clamped_speed_in_range(velocity);
        lemma_square_of_magnitude(w.x);
        lemma_square_of_magnitude(w.y);
        lemma_square_order(magnitude(w.x), Ball::MAX_BALL_SPEED as int);
        lemma_square_order(magnitude(w.y), Ball::MAX_BALL_SPEED as int);
    }
}

pub fn clamp(value: i64, min: i64, max: i64) -> (r: i64)
    ensures
        r == clamped(value as int, min as int, max as int),
{
    if value < min {
        min
    } else if value > max {
        max
    } else {
        value
    }
}

/// The point of a rectangle nearest to the ball's centre.
pub fn closest_point(ball: &Ball, obj_position: Vec2, obj_size: Vec2) -> (p: Vec2)
    requires
        i64::MIN <= obj_position.x + obj_size.x <= i64::MAX,
        i64::MIN <= obj_position.y + obj_size.y <= i64::MAX,
    ensures
        p@ == closest_point_on_rect(ball.position@, obj_position@, obj_size@),
{
    let closest_x = clamp(ball.position.x, obj_position.x, obj_position.x + obj_size.x);
    let closest_y = clamp(ball.position.y, obj_position.y, obj_position.y + obj_size.y);
    Vec2 { x: closest_x, y: closest_y }
}

/// The vector from the rectangle's nearest point to the ball's centre.
fn normal_from(ball: &Ball, origin: Vec2, size: Vec2) -> (n: Vec2)
    requires
        ball.wf(),
        rect_wf(origin@, size@),
    ensures
        n@ == contact_normal(ball@, origin@, size@),
        n@.within(7 * MAX_EXTENT),
{
    let closest = closest_point(ball, origin, size);
    Vec2 { x: ball.position.x - closest.x, y: ball.position.y - closest.y }
}

/// Squared length of a vector.
fn norm_sq_of(v: Vec2) -> (q: u128)
    ensures
        q == v@.norm_sq(),
        q <= 0x8000_0000_0000_0000_0000_0000_0000_0000,
{
    let x: i128 = v.x as i128;
    let y: i128 = v.y as i128;
    assert(0 <= x * x <= 0x4000_0000_0000_0000_0000_0000_0000_0000) by (nonlinear_arith)
        requires
            -0x8000_0000_0000_0000 <= x <= 0x8000_0000_0000_0000,
    ;
    assert(0 <= y * y <= 0x4000_0000_0000_0000_0000_0000_0000_0000) by (nonlinear_arith)
        requires
            -0x8000_0000_0000_0000 <= y <= 0x8000_0000_0000_0000,
    ;
    let xx: u128 = (x * x) as u128;
    let yy: u128 = (y * y) as u128;
    xx + yy
}

/// Whether a ball in play reaches into the rectangle at `origin` with
/// extent `size`.
pub fn overlaps(ball: &Ball, origin: Vec2, size: Vec2) -> (hit: bool)
    requires
        ball.wf(),
        rect_wf(origin@, size@),
    ensures
        hit == overlaps_rect(ball@, origin@, size@),
{
    if !ball.active {
        return false;
    }
    let normal = normal_from(ball, origin, size);
    let distance_squared = norm_sq_of(normal);
    let radius: u128 = ball.radius as u128;
    assert(radius * radius <= 1_000_000_000_000_000_000) by (nonlinear_arith)
        requires
            0 <= radius <= 1_000_000_000,
    ;
    distance_squared + (COLLISION_MARGIN as u128) <= radius * radius
}

/// Whether the ball reaches into a standing block.
pub fn collision_ball_block(ball: &Ball, block: &Block) -> (hit: bool)
    requires
        ball.wf(),
        block.wf(),
    ensures
        hit == (block.active && overlaps_rect(ball@, block@.position, BlockView::size())),
{
    block.active && overlaps(
        ball,
        block.position,
        Vec2 { x: Block::BLOCK_SIZE, y: Block::BLOCK_SIZE },
    )
}

/// Whether the ball reaches into the paddle.
pub fn collision_ball_player(ball: &Ball, player: &Player) -> (hit: bool)
    requires
        ball.wf(),
        player.wf(),
    ensures
        hit == overlaps_rect(ball@, player@.position, player@.size),
{
    overlaps(ball, player.position, player.size)
}

/// Brings the ball's speed into the range from `Ball::DEFAULT_BALL_SPEED` to
/// `Ball::MAX_BALL_SPEED` and keeps its direction. A ball at rest stays at rest.
pub fn clamp_ball_velocity(ball: &mut Ball)
    ensures
        final(ball)@ == (BallView { velocity: clamped_speed(old(ball)@.velocity), ..old(ball)@ }),
        old(ball).wf() ==> final(ball).wf(),
{
    proof {
        lemma_clamped_speed_is_bounded(ball.velocity@);
        lemma_square_of_magnitude(ball.velocity@.x);
        lemma_square_of_magnitude(ball.velocity@.y);
    }
    let speed_sq = norm_sq_of(ball.velocity);
    if speed_sq == 0 {
    } else if speed_sq < 49_000_000 {
        let target: u128 = 7_000;
        let x = scale_up(ball.velocity.x, target, speed_sq);
        let y = scale_up(ball.velocity.y, target, speed_sq);
        ball.velocity = Vec2 {
            x: signed_like(x, ball.velocity.x),
            y: signed_like(y, ball.velocity.y),
        };
    } else if speed_sq > 100_000_000 {
        let target: u128 = 10_000;
        let x = scale_down(ball.velocity.x, target, speed_sq);
        let y = scale_down(ball.velocity.y, target, speed_sq);
        ball.velocity = Vec2 {
            x: signed_like(x, ball.velocity.x),
            y: signed_like(y, ball.velocity.y),
        };
    }
}

/// `length` with the sign of `c`.
fn signed_like(length: u128, c: i64) -> (signed: i64)
    requires
        length <= SCALE_TARGET_LIMIT,
    ensures
        signed == with_sign_of(length as int, c as int),
{
    if c < 0 {
        -(length as i64)
    } else {
        length as i64
    }
}

/// Pushes a ball that reaches into a rectangle out of it along the contact
/// normal.
fn push_out(ball: &mut Ball, normal: Vec2, origin: Vec2, size: Vec2)
    requires
        old(ball).wf(),
        rect_wf(origin@, size@),
        normal@ == contact_normal(old(ball)@, origin@, size@),
        !normal@.is_zero(),
    ensures
        final(ball)@ == (BallView {
            position: old(ball)@.position.plus(penetration_push(normal@, old(ball)@.radius)),
            ..old(ball)@
        }),
        old(ball)@.position.within(4 * MAX_EXTENT) ==> final(ball)@.position.within(
            4 * MAX_EXTENT,
        ),
{
    let distance_squared = norm_sq_of(normal);
    let radius: u128 = ball.radius as u128;
    proof {
        lemma_norm_sq_is_positive(normal@);
        lemma_square_of_magnitude(normal@.x);
        lemma_square_of_magnitude(normal@.y);
        assert(radius * radius <= 1_000_000_000_000_000_000) by (nonlinear_arith)
            requires
                0 <= radius <= 1_000_000_000,
        ;
    }
    if radius * radius > distance_squared {
        let x = scale_up(normal.x, radius, distance_squared);
        let y = scale_up(normal.y, radius, distance_squared);
        ball.position = Vec2 {
            x: ball.position.x - normal.x + signed_like(x, normal.x),
            y: ball.position.y - normal.y + signed_like(y, normal.y),
        };
    }
}

/// Bounces the ball off a block: starts the cooldown, mirrors the velocity
/// about the contact normal, clamps the speed and pushes the ball out of the
/// block. Nothing happens to a ball out of play, off a fallen block, or
/// during the cooldown; a ball whose centre lies in the block only starts its
/// cooldown.
pub fn reflect_velocity_block_to_ball(ball: &mut Ball, block: &Block)
    requires
        old(ball).wf(),
        block.wf(),
    ensures
        final(ball)@ == reflected_off_block(old(ball)@, block@),
        final(ball).wf(),
{
    if !ball.active || !block.active {
        return ;
    }
    if ball.collision_cooldown > 0 {
        return ;
    }
    ball.collision_cooldown = COLLISION_COOLDOWN_TIME;

    let size = Vec2 { x: Block::BLOCK_SIZE, y: Block::BLOCK_SIZE };
    let normal = normal_from(ball, block.position, size);
    if normal.x == 0 && normal.y == 0 {
        return ;
    }
    ball.velocity = ball.velocity.reflect(normal);
    proof {
        lemma_clamped_speed_is_bounded(ball.velocity@);
    }
    clamp_ball_velocity(ball);
    push_out(ball, normal, block.position, size);
}

/// Bounces the ball off the paddle: starts the cooldown, mirrors the
/// velocity relative to the paddle about the contact normal, adds the
/// paddle's velocity back, clamps the speed and pushes the ball out of the
/// paddle. Nothing happens to a ball out of play or during the cooldown; a
/// ball whose centre lies in the paddle starts its cooldown and turns back.
pub fn reflect_velocity_player_to_ball(ball: &mut Ball, player: &Player)
    requires
        old(ball).wf(),
        player.wf(),
    ensures
        final(ball)@ == reflected_off_player(old(ball)@, player@),
        final(ball).wf(),
{
    if !ball.active {
        return ;
    }
    if ball.collision_cooldown > 0 {
        return ;
    }
    ball.collision_cooldown = COLLISION_COOLDOWN_TIME;

    let normal = normal_from(ball, player.position, player.size);
    if normal.x == 0 && normal.y == 0 {
        ball.velocity = Vec2 { x: -ball.velocity.x, y: -ball.velocity.y };
        return ;
    }
    let relative = Vec2 {
        x: ball.velocity.x - player.velocity.x,
        y: ball.velocity.y - player.velocity.y,
    };
    let reflected = relative.reflect(normal);
    ball.velocity = Vec2 {
        x: reflected.x + player.velocity.x,
        y: reflected.y + player.velocity.y,
    };
    proof {
        lemma_clamped_speed_is_bounded(ball.velocity@);
    }
    clamp_ball_velocity(ball);
    push_out(ball, normal, player.position, player.size);
}

} // verus!
