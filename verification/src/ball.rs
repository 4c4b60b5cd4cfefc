//! The ball: its state, its motion and its life cycle.

use crate::color::Rgb;
use crate::units::MAX_EXTENT;
use crate::vector::{Vec2, Vector};
use vstd::prelude::*;

verus! {

/// The ball. Lengths are in length units, times in microseconds.
#[derive(Clone, Copy, Debug, PartialEq, Eq, Structural)]
pub struct Ball {
    /// Centre.
    pub position: Vec2,
    /// Displacement per simulation step.
    pub velocity: Vec2,
    pub radius: i64,
    pub color: Rgb,
    /// Whether the ball is in play.
    pub active: bool,
    /// Time left until an inactive ball comes back into play.
    pub respawn_timer: u64,
    /// Time left during which the ball ignores further reflections.
    pub collision_cooldown: u64,
    /// The playfield that the ball was made for: it leaves play outside it,
    /// and comes back at its centre.
    pub window_size: Vec2,
    /// Time that a ball stays out of play.
    pub respawn_time: u64,
}

/// The ball as contracts see it, with unbounded integers.
pub struct BallView {
    pub position: Vector,
    pub velocity: Vector,
    pub radius: int,
    pub color: Rgb,
    pub active: bool,
    pub respawn_timer: nat,
    pub collision_cooldown: nat,
    pub window_size: Vector,
    pub respawn_time: nat,
}

impl View for Ball {
    type V = BallView;

    open spec fn view(&self) -> BallView {
        BallView {
            position: self.position@,
            velocity: self.velocity@,
            radius: self.radius as int,
            color: self.color,
            active: self.active,
            respawn_timer: self.respawn_timer as nat,
            collision_cooldown: self.collision_cooldown as nat,
            window_size: self.window_size@,
            respawn_time: self.respawn_time as nat,
        }
    }
}

impl BallView {
    /// What the library keeps true of a ball: a positive radius, and
    /// coordinates small enough that no step of the physics overflows. A
    /// ball in play stays within four playfield extents of the origin; one
    /// that has just left play may lie one velocity further out.
    pub open spec fn wf(self) -> bool {
        &&& 0 < self.radius <= MAX_EXTENT
        &&& self.window_size.within_positive(MAX_EXTENT as int)
        &&& self.velocity.within(MAX_EXTENT as int)
        &&& self.position.within(5 * MAX_EXTENT)
        &&& self.active ==> self.position.within(4 * MAX_EXTENT)
    }
}

impl BallView {
    /// Where a ball enters play: with its centre in the middle of the
    /// playfield.
    pub open spec fn launch_position(window_size: Vector) -> Vector {
        Vector { x: window_size.x / 2, y: window_size.y / 2 }
    }

    /// The velocity with which a ball enters play: straight down the
    /// screen at the default speed.
    pub open spec fn launch_velocity() -> Vector {
        Vector { x: 0, y: Ball::DEFAULT_BALL_SPEED as int }
    }

    /// A new ball for a playfield of extent `window_size`.
    pub open spec fn launched(window_size: Vector) -> BallView {
        BallView {
            position: Self::launch_position(window_size),
            velocity: Self::launch_velocity(),
            radius: Ball::DEFAULT_BALL_RADIUS as int,
            color: Rgb::white(),
            active: true,
            respawn_timer: 0,
            collision_cooldown: 0,
            window_size,
            respawn_time: Ball::DEFAULT_RESPAWN_TIME as nat,
        }
    }

    /// Whether the centre lies outside the playfield that the ball was made for.
    pub open spec fn outside_window(self) -> bool {
        ||| self.position.x < 0
        ||| self.position.x > self.window_size.x
        ||| self.position.y < 0
        ||| self.position.y > self.window_size.y
    }

    /// Whether a ball at `center` has come within the wall margin of either
    /// end of `[0, extent]`.
    pub open spec fn meets_wall(self, center: int, extent: int) -> bool {
        ||| center - self.radius <= Ball::WALL_COLLISION_MARGIN
        ||| center + self.radius + Ball::WALL_COLLISION_MARGIN >= extent
    }

    /// The ball taken out of play, to come back after its respawn time.
    pub open spec fn despawned(self) -> BallView {
        BallView { active: false, respawn_timer: self.respawn_time, ..self }
    }

    /// The ball put back into play at the launch position with the launch velocity.
    pub open spec fn respawned(self) -> BallView {
        BallView {
            position: Self::launch_position(self.window_size),
            velocity: Self::launch_velocity(),
            active: true,
            ..self
        }
    }

    /// A ball in play after one step in a window of extent `window_size`.
    /// It moves by its velocity, whatever time has passed. Within the wall
    /// margin of a vertical edge of the window its horizontal velocity is
    /// reversed, within that of a horizontal edge its vertical velocity.
    /// Outside its playfield it leaves play. Its cooldown runs down by
    /// `delta_time`.
    pub open spec fn moved(self, delta_time: nat, window_size: Vector) -> BallView {
        let position = self.position.plus(self.velocity);
        let velocity = Vector {
            x: if self.meets_wall(position.x, window_size.x) {
                -self.velocity.x
            } else {
                self.velocity.x
            },
            y: if self.meets_wall(position.y, window_size.y) {
                -self.velocity.y
            } else {
                self.velocity.y
            },
        };
        let collision_cooldown = if self.collision_cooldown > delta_time {
            (self.collision_cooldown - delta_time) as nat
        } else {
            0
        };
        let arrived = BallView { position, velocity, collision_cooldown, ..self };
        if arrived.outside_window() {
            arrived.despawned()
        } else {
            arrived
        }
    }

    /// A ball out of play after `delta_time`: it waits, or it comes back
    /// into play once its respawn timer has run out.
    pub open spec fn waited(self, delta_time: nat) -> BallView {
        if self.respawn_timer <= delta_time {
            (BallView { respawn_timer: 0, ..self }).respawned()
        } else {
            BallView { respawn_timer: (self.respawn_timer - delta_time) as nat, ..self }
        }
    }

    /// The ball after one step of the simulation.
    pub open spec fn updated(self, delta_time: nat, window_size: Vector) -> BallView {
        if self.active {
            self.moved(delta_time, window_size)
        } else {
            self.waited(delta_time)
        }
    }
}

impl Ball {
    /// Radius of a new ball: ten pixels.
    pub const DEFAULT_BALL_RADIUS: i64 = 10_000;

    /// Launch speed, and the least speed that a reflection leaves: seven
    /// pixels a step.
    pub const DEFAULT_BALL_SPEED: i64 = 7_000;

    /// The greatest speed that a reflection leaves: ten pixels a step.
    pub const MAX_BALL_SPEED: i64 = 10_000;

    /// Distance from a window edge at which the ball turns back: five pixels.
    pub const WALL_COLLISION_MARGIN: i64 = 5_000;

    /// Time that a new ball stays out of play after leaving the playfield:
    /// three seconds.
    pub const DEFAULT_RESPAWN_TIME: u64 = 3_000_000;

    pub open spec fn wf(&self) -> bool {
        self@.wf()
    }

    /// A ball in play at the launch position of a playfield of extent
    /// `window_size`, with the launch velocity.
    pub fn new(window_size: Vec2) -> (ball: Ball)
        requires
            window_size@.within_positive(MAX_EXTENT as int),
        ensures
            ball@ == BallView::launched(window_size@),
            ball.wf(),
    {
        Ball {
            position: Vec2 { x: window_size.x / 2, y: window_size.y / 2 },
            velocity: Vec2 { x: 0, y: Ball::DEFAULT_BALL_SPEED },
            radius: Ball::DEFAULT_BALL_RADIUS,
            color: Rgb::white(),
            window_size,
            respawn_time: Ball::DEFAULT_RESPAWN_TIME,
            active: true,
            respawn_timer: 0,
            collision_cooldown: 0,
        }
    }

    /// Advances the ball by one step of the simulation, `delta_time` after
    /// the step before, in a window of extent `window_size`.
    pub fn update(&mut self, delta_time: u64, window_size: Vec2)
        requires
            old(self).wf(),
        ensures
            final(self)@ == old(self)@.updated(delta_time as nat, window_size@),
            final(self).wf(),
    {
        if self.active {
            self.position.x += self.velocity.x;
            self.position.y += self.velocity.y;

            if self.position.x - self.radius <= Ball::WALL_COLLISION_MARGIN || self.position.x
                + self.radius + Ball::WALL_COLLISION_MARGIN >= window_size.x {
                self.velocity.x = -self.velocity.x;
            }
            if self.position.y - self.radius <= Ball::WALL_COLLISION_MARGIN || self.position.y
                + self.radius + Ball::WALL_COLLISION_MARGIN >= window_size.y {
                self.velocity.y = -self.velocity.y;
            }
            if self.is_outside_window() {
                self.despawn();
            }
            if self.collision_cooldown > delta_time {
                self.collision_cooldown -= delta_time;
            } else {
                self.collision_cooldown = 0;
            }
        } else {
            if self.respawn_timer <= delta_time {
                self.respawn_timer = 0;
                self.respawn();
            } else {
                self.respawn_timer -= delta_time;
            }
        }
    }

    /// Whether the centre lies outside the playfield that the ball was made for.
    pub fn is_outside_window(&self) -> (outside: bool)
        ensures
            outside == self@.outside_window(),
    {
        self.position.x < 0 || self.position.x > self.window_size.x || self.position.y < 0
            || self.position.y > self.window_size.y
    }

    /// Puts the ball at the launch position of its playfield.
    pub fn reset_position(&mut self)
        requires
            old(self).wf(),
        ensures
            final(self)@ == (BallView {
                position: BallView::launch_position(old(self)@.window_size),
                ..old(self)@
            }),
            final(self).wf(),
    {
        self.position = Vec2 { x: self.window_size.x / 2, y: self.window_size.y / 2 };
    }

    /// Gives the ball the launch velocity.
    pub fn reset_velocity(&mut self)
        ensures
            final(self)@ == (BallView { velocity: BallView::launch_velocity(), ..old(self)@ }),
            old(self).wf() ==> final(self).wf(),
    {
        self.velocity = Vec2 { x: 0, y: Ball::DEFAULT_BALL_SPEED };
    }

    /// Takes the ball out of play and starts its respawn timer.
    pub fn despawn(&mut self)
        ensures
            final(self)@ == old(self)@.despawned(),
            old(self).wf() ==> final(self).wf(),
    {
        self.active = false;
        self.respawn_timer = self.respawn_time;
    }

    /// Puts the ball back into play at the launch position of its playfield,
    /// with the launch velocity.
    pub fn respawn(&mut self)
        requires
            old(self).wf(),
        ensures
            final(self)@ == old(self)@.respawned(),
            final(self)@.position == BallView::launch_position(old(self)@.window_size),
            final(self)@.velocity == BallView::launch_velocity(),
            final(self).active,
            final(self).wf(),
    {
        self.reset_position();
        self.reset_velocity();
        self.active = true;
    }
}

} // verus!
