//! The paddle that the player steers.

use crate::collision::{clamp, clamped};
use crate::color::Rgb;
use crate::units::MAX_EXTENT;
use crate::vector::{Vec2, Vector};
use vstd::prelude::*;

verus! {

/// The paddle. Lengths are in length units.
#[derive(Clone, Copy, Debug, PartialEq, Eq, Structural)]
pub struct Player {
    /// Top-left corner.
    pub position: Vec2,
    /// What the keys asked for in the latest step; it is handed to the ball
    /// on a hit and moves nothing by itself.
    pub velocity: Vec2,
    pub size: Vec2,
    pub color: Rgb,
}

/// The direction keys that are held down during one step.
#[derive(Clone, Copy, Debug, PartialEq, Eq, Structural)]
pub struct Input {
    pub up: bool,
    pub down: bool,
    pub left: bool,
    pub right: bool,
}

/// The paddle as contracts see it, with unbounded integers.
pub struct PlayerView {
    pub position: Vector,
    pub velocity: Vector,
    pub size: Vector,
    pub color: Rgb,
}

impl View for Player {
    type V = PlayerView;

    open spec fn view(&self) -> PlayerView {
        PlayerView {
            position: self.position@,
            velocity: self.velocity@,
            size: self.size@,
            color: self.color,
        }
    }
}

impl PlayerView {
    /// What the library keeps true of a paddle: no negative extent, and
    /// coordinates small enough that no step of the physics overflows.
    pub open spec fn wf(self) -> bool {
        &&& self.position.within(MAX_EXTENT as int)
        &&& self.velocity.within(MAX_EXTENT as int)
        &&& self.size.within_positive(MAX_EXTENT as int)
    }
}

impl PlayerView {
    /// A new paddle for a window of extent `window_size`: centred
    /// horizontally, nine tenths of the way down, at rest.
    pub open spec fn launched(window_size: Vector) -> PlayerView {
        PlayerView {
            position: Vector {
                x: window_size.x / 2 - Player::DEFAULT_WIDTH / 2,
                y: window_size.y * 9 / 10,
            },
            velocity: Vector::zero(),
            size: Vector { x: Player::DEFAULT_WIDTH as int, y: Player::DEFAULT_HEIGHT as int },
            color: Rgb::blue(),
        }
    }

    /// Where the keys take the paddle before the window holds it back: one
    /// `Player::DEFAULT_SPEED` in the direction of each key that is held down.
    pub open spec fn steered(self, input: Input) -> Vector {
        Vector {
            x: self.position.x - (if input.left {
                Player::DEFAULT_SPEED as int
            } else {
                0
            }) + (if input.right {
                Player::DEFAULT_SPEED as int
            } else {
                0
            }),
            y: self.position.y - (if input.up {
                Player::DEFAULT_SPEED as int
            } else {
                0
            }) + (if input.down {
                Player::DEFAULT_SPEED as int
            } else {
                0
            }),
        }
    }

    /// The velocity that the paddle reports after a step. The keys are read
    /// in the order up, down, left, right, and each key sets or clears the
    /// velocity of its axis, so the later key of an axis decides: the paddle
    /// reports `Player::DEFAULT_SPEED` to the right while right is held down
    /// and downward while down is held down, and zero otherwise.
    pub open spec fn signalled(input: Input) -> Vector {
        Vector {
            x: if input.right {
                Player::DEFAULT_SPEED as int
            } else {
                0
            },
            y: if input.down {
                Player::DEFAULT_SPEED as int
            } else {
                0
            },
        }
    }

    /// The paddle after one step in a window of extent `window_size`: moved
    /// as the keys ask, then held within the window's width and within the
    /// lowest fifth of its height.
    pub open spec fn updated(self, input: Input, window_size: Vector) -> PlayerView {
        let steered = self.steered(input);
        PlayerView {
            position: Vector {
                x: clamped(steered.x, 0, window_size.x - self.size.x),
                y: clamped(steered.y, window_size.y * 4 / 5, window_size.y - self.size.y),
            },
            velocity: Self::signalled(input),
            ..self
        }
    }

    /// Whether the paddle lies within the part of the window that it may
    /// travel in.
    pub open spec fn in_travel_range(self, window_size: Vector) -> bool {
        &&& 0 <= self.position.x <= window_size.x - self.size.x
        &&& window_size.y * 4 / 5 <= self.position.y <= window_size.y - self.size.y
    }
}

impl Player {
    /// Distance that one pressed key moves the paddle in one step: six pixels.
    pub const DEFAULT_SPEED: i64 = 6_000;

    /// Height of a new paddle: twenty-five pixels.
    pub const DEFAULT_HEIGHT: i64 = 25_000;

    /// Width of a new paddle: a hundred pixels.
    pub const DEFAULT_WIDTH: i64 = 100_000;

    pub open spec fn wf(&self) -> bool {
        self@.wf()
    }

    /// A paddle at rest for a window of extent `window_size`: centred
    /// horizontally, nine tenths of the way down.
    pub fn new(window_size: Vec2) -> (player: Player)
        requires
            window_size@.within_positive(MAX_EXTENT as int),
        ensures
            player@ == PlayerView::launched(window_size@),
            player.wf(),
    {
        Player {
            position: Vec2 {
                x: window_size.x / 2 - Player::DEFAULT_WIDTH / 2,
                y: window_size.y * 9 / 10,
            },
            velocity: Vec2 { x: 0, y: 0 },
            size: Vec2 { x: Player::DEFAULT_WIDTH, y: Player::DEFAULT_HEIGHT },
            color: Rgb::blue(),
        }
    }

    /// Moves the paddle by one step as the keys ask and holds it within the
    /// window. Where the window leaves the paddle room, it ends within its
    /// travel range.
    pub fn update(&mut self, input: &Input, window_size: Vec2)
        requires
            old(self).wf(),
            window_size@.within_positive(MAX_EXTENT as int),
        ensures
            final(self)@ == old(self)@.updated(*input, window_size@),
            final(self).wf(),
            old(self)@.size.x <= window_size@.x && window_size@.y * 4 / 5 <= window_size@.y - old(
                self,
            )@.size.y ==> final(self)@.in_travel_range(window_size@),
    {
        if input.up {
            self.position.y -= Player::DEFAULT_SPEED;
            self.velocity.y = -Player::DEFAULT_SPEED;
        } else {
            self.velocity.y = 0;
        }

        if input.down {
            self.position.y += Player::DEFAULT_SPEED;
            self.velocity.y = Player::DEFAULT_SPEED;
        } else {
            self.velocity.y = 0;
        }

        if input.left {
            self.position.x -= Player::DEFAULT_SPEED;
            self.velocity.x = -Player::DEFAULT_SPEED;
        } else {
            self.velocity.x = 0;
        }

        if input.right {
            self.position.x += Player::DEFAULT_SPEED;
            self.velocity.x = Player::DEFAULT_SPEED;
        } else {
            self.velocity.x = 0;
        }

        self.position.x = clamp(self.position.x, 0, window_size.x - self.size.x);
        self.position.y = clamp(
            self.position.y,
            window_size.y * 4 / 5,
            window_size.y - self.size.y,
        );
    }
}

} // verus!
