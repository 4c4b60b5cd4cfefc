//! The physics of a brick-breaking arcade game: a paddle turns a moving
//! ball into a grid of blocks that fall when struck.
//!
//! The library computes in whole numbers. Lengths count thousandths of a
//! pixel, times count microseconds, and a velocity is the displacement of
//! one simulation step; wherever a quotient or a root has to be rounded, the
//! contracts say which way. Every function is verified against its
//! contract except the two that draw random numbers, which are believed.
//!
//! - [`vector`]: plane vectors and their reflection.
//! - [`ball`], [`block`], [`player`]: the three kinds of things in play.
//! - [`collision`]: the overlap test, the bounce and the limits on speed.
//! - [`game`]: the whole state and its step.
//! - [`theorems`]: what holds of the physics as a whole.
//! - [`arith`], [`units`], [`color`]: what the others are built from.

pub mod arith;
pub mod ball;
pub mod block;
pub mod collision;
pub mod color;
pub mod game;
pub mod player;
mod random;
pub mod theorems;
pub mod units;
pub mod vector;
