//! What holds of the physics as a whole: statements that relate several
//! functions of the library, each proved from the functions' own contracts.

use crate::ball::BallView;
use crate::block::BlockView;
use crate::collision::{
    clamped_speed, closest_point_on_rect, COLLISION_MARGIN, contact_normal,
    lemma_clamped_speed_in_range, overlaps_rect, reflected_off_block, reflected_off_player,
    speed_in_range,
};
use crate::game::{ball_after_blocks, ball_after_player};
use crate::player::PlayerView;
use crate::vector::{lemma_norm_sq_is_positive, lemma_reflected_keeps_motion, Vector};
use vstd::prelude::*;

verus! {

/// A moving ball that bounces off a block leaves at a speed in range.
///
/// A ball at rest stays at rest, and a ball whose centre lies in the block
/// keeps the velocity that it came with; neither is a bounce.
pub proof fn lemma_block_bounce_speed_in_range(ball: BallView, block: BlockView)
    requires
        ball.active,
        block.active,
        ball.collision_cooldown == 0,
        !contact_normal(ball, block.position, BlockView::size()).is_zero(),
        !ball.velocity.is_zero(),
    ensures
        speed_in_range(reflected_off_block(ball, block).velocity),
{
    let normal = contact_normal(ball, block.position, BlockView::size());
    lemma_reflected_keeps_motion(ball.velocity, normal);
    lemma_clamped_speed_in_range(ball.velocity.reflected(normal));
}

/// A ball that bounces off the paddle leaves at a speed in range, unless
/// the bounce leaves it at rest: its velocity relative to the paddle,
/// mirrored, is the reverse of the paddle's velocity.
pub proof fn lemma_player_bounce_speed_in_range(ball: BallView, player: PlayerView)
    requires
        ball.active,
        ball.collision_cooldown == 0,
        !contact_normal(ball, player.position, player.size).is_zero(),
        !ball.velocity.minus(player.velocity).reflected(
            contact_normal(ball, player.position, player.size),
        ).plus(player.velocity).is_zero(),
    ensures
        speed_in_range(reflected_off_player(ball, player).velocity),
{
    let normal = contact_normal(ball, player.position, player.size);
    lemma_clamped_speed_in_range(
        ball.velocity.minus(player.velocity).reflected(normal).plus(player.velocity),
    );
}

/// A speed in range stays in range whatever block the ball meets.
pub proof fn lemma_block_keeps_speed_in_range(ball: BallView, block: BlockView)
    requires
        speed_in_range(ball.velocity),
    ensures
        speed_in_range(reflected_off_block(ball, block).velocity),
{
    let normal = contact_normal(ball, block.position, BlockView::size());
    lemma_norm_sq_is_positive(ball.velocity);
    if ball.active && block.active && ball.collision_cooldown == 0 && !normal.is_zero() {
        lemma_block_bounce_speed_in_range(ball, block);
    }
}

/// A ball whose centre lies in the paddle turns back at the speed that it
/// came with.
pub proof fn lemma_player_reversal_keeps_speed(ball: BallView, player: PlayerView)
    requires
        ball.active,
        ball.collision_cooldown == 0,
        contact_normal(ball, player.position, player.size).is_zero(),
    ensures
        reflected_off_player(ball, player).velocity == ball.velocity.negated(),
        reflected_off_player(ball, player).velocity.norm_sq() == ball.velocity.norm_sq(),
{
    assert((-ball.velocity.x) * (-ball.velocity.x) == ball.velocity.x * ball.velocity.x && (
    -ball.velocity.y) * (-ball.velocity.y) == ball.velocity.y * ball.velocity.y)
        by (nonlinear_arith);
}

/// Off a paddle at rest the ball bounces as off a block in its place.
pub proof fn lemma_resting_player_bounces_like_block(ball: BallView, player: PlayerView)
    requires
        ball.active,
        ball.collision_cooldown == 0,
        player.velocity.is_zero(),
        !contact_normal(ball, player.position, player.size).is_zero(),
    ensures
        reflected_off_player(ball, player).velocity == clamped_speed(
            ball.velocity.reflected(contact_normal(ball, player.position, player.size)),
        ),
{
    let normal = contact_normal(ball, player.position, player.size);
    assert(ball.velocity.minus(player.velocity) == ball.velocity);
    assert(ball.velocity.reflected(normal).plus(player.velocity) == ball.velocity.reflected(
        normal,
    ));
}

/// A ball out of play is inert. It overlaps nothing and bounces off
/// nothing. While it waits it stays where it is, and its respawn timer runs
/// down by the time that passes; once the timer has run out, the ball is
/// back in play at the launch position with the launch velocity.
pub proof fn lemma_inactive_ball_is_inert(
    ball: BallView,
    delta_time: nat,
    window_size: Vector,
    origin: Vector,
    size: Vector,
    block: BlockView,
    player: PlayerView,
    blocks: Seq<BlockView>,
    count: nat,
)
    requires
        !ball.active,
    ensures
        !overlaps_rect(ball, origin, size),
        reflected_off_block(ball, block) == ball,
        reflected_off_player(ball, player) == ball,
        ball_after_player(ball, player) == ball,
        ball_after_blocks(ball, blocks, count) == ball,
        ball.updated(delta_time, window_size).respawn_timer <= ball.respawn_timer,
        delta_time < ball.respawn_timer ==> ball.updated(delta_time, window_size) == (BallView {
            respawn_timer: (ball.respawn_timer - delta_time) as nat,
            ..ball
        }),
        delta_time >= ball.respawn_timer ==> ball.updated(delta_time, window_size) == (BallView {
            position: BallView::launch_position(ball.window_size),
            velocity: BallView::launch_velocity(),
            active: true,
            respawn_timer: 0,
            ..ball
        }),
    decreases count,
{
    if count > 0 {
        lemma_inactive_ball_is_inert(
            ball,
            delta_time,
            window_size,
            origin,
            size,
            block,
            player,
            blocks,
            (count - 1) as nat,
        );
    }
}

/// A ball in play whose centre lies in a rectangle overlaps it, if only its
/// radius is large enough for the margin of the overlap test: the squared
/// radius must reach `COLLISION_MARGIN`.
pub proof fn lemma_center_inside_overlaps(ball: BallView, origin: Vector, size: Vector)
    requires
        origin.x <= ball.position.x <= origin.x + size.x,
        origin.y <= ball.position.y <= origin.y + size.y,
    ensures
        closest_point_on_rect(ball.position, origin, size) == ball.position,
        overlaps_rect(ball, origin, size) == (ball.active && COLLISION_MARGIN <= ball.radius
            * ball.radius),
{
    lemma_norm_sq_is_positive(contact_normal(ball, origin, size));
}

/// A ball whose centre is further from a rectangle than its radius does
/// not overlap it; nor does one that is nearer by less than the margin.
pub proof fn lemma_distant_ball_misses(ball: BallView, origin: Vector, size: Vector)
    requires
        contact_normal(ball, origin, size).norm_sq() + COLLISION_MARGIN > ball.radius
            * ball.radius,
    ensures
        !overlaps_rect(ball, origin, size),
{
}

/// A fallen block is out of the game: the ball does not bounce off it.
pub proof fn lemma_fallen_block_is_inert(ball: BallView, block: BlockView)
    requires
        !block.active,
    ensures
        reflected_off_block(ball, block) == ball,
{
}

} // verus!
