//! The blocks that the ball breaks.

use crate::color::Rgb;
use crate::random::{random_byte, random_in_range};
use crate::units::MAX_EXTENT;
use crate::vector::{Vec2, Vector};
use vstd::prelude::*;

verus! {

/// A square block. Lengths are in length units, times in microseconds.
#[derive(Clone, Copy, Debug, PartialEq, Eq, Structural)]
pub struct Block {
    /// Top-left corner.
    pub position: Vec2,
    pub color: Rgb,
    /// Whether the block still stands. A block that fell stays down.
    pub active: bool,
    /// Time since the block last changed its colour.
    pub time_since_last_change: u64,
    /// Time between the last change of colour and the next.
    pub next_change_time: u64,
}

/// The block as contracts see it, with unbounded integers.
pub struct BlockView {
    pub position: Vector,
    pub color: Rgb,
    pub active: bool,
    pub time_since_last_change: nat,
    pub next_change_time: nat,
}

impl View for Block {
    type V = BlockView;

    open spec fn view(&self) -> BlockView {
        BlockView {
            position: self.position@,
            color: self.color,
            active: self.active,
            time_since_last_change: self.time_since_last_change as nat,
            next_change_time: self.next_change_time as nat,
        }
    }
}

impl BlockView {
    /// What the library keeps true of a block: coordinates small enough that
    /// no step of the physics overflows.
    pub open spec fn wf(self) -> bool {
        self.position.within(MAX_EXTENT as int)
    }

    /// The extent of every block.
    pub open spec fn size() -> Vector {
        Vector { x: Block::BLOCK_SIZE as int, y: Block::BLOCK_SIZE as int }
    }

    /// Whether a standing block is due for a new colour once `delta_time`
    /// more has passed.
    pub open spec fn change_due(self, delta_time: nat) -> bool {
        self.active && self.time_since_last_change + delta_time >= self.next_change_time
    }

    /// Whether `next_change_time` is one that a change of colour may set.
    pub open spec fn change_time_in_range(self) -> bool {
        Block::MIN_CHANGE_TIME <= self.next_change_time <= Block::MAX_CHANGE_TIME
    }

    /// The block with a new colour, its time since the last change starting
    /// over, the next change `next_change_time` away.
    pub open spec fn recolored(self, color: Rgb, next_change_time: nat) -> BlockView {
        BlockView { color, time_since_last_change: 0, next_change_time, ..self }
    }

    /// Whether `after` is what this block may be once `delta_time` has
    /// passed: the block aged by `delta_time` where no change of colour is
    /// due, and else the block with some new colour and some time in range
    /// set for the change after that.
    pub open spec fn updates_to(self, after: BlockView, delta_time: nat) -> bool {
        if self.change_due(delta_time) {
            after == self.recolored(after.color, after.next_change_time)
                && after.change_time_in_range()
        } else {
            after == self.aged(delta_time)
        }
    }

    /// A block that is not due for a new colour after `delta_time`: a fallen
    /// block as it was, a standing one `delta_time` older.
    pub open spec fn aged(self, delta_time: nat) -> BlockView {
        if self.active {
            BlockView {
                time_since_last_change: self.time_since_last_change + delta_time,
                ..self
            }
        } else {
            self
        }
    }
}

impl Block {
    /// Side of every block: forty pixels.
    pub const BLOCK_SIZE: i64 = 40_000;

    /// Shortest time between two changes of colour: a tenth of a second.
    pub const MIN_CHANGE_TIME: u64 = 100_000;

    /// Longest time between two changes of colour: a second.
    pub const MAX_CHANGE_TIME: u64 = 1_000_000;

    pub open spec fn wf(&self) -> bool {
        self@.wf()
    }

    /// A standing block at `position`, of a colour drawn at random, with
    /// its first change of colour a random time away.
    pub fn new(position: Vec2) -> (block: Block)
        ensures
            block.position == position,
            block.active,
            block.time_since_last_change == 0,
            block@.change_time_in_range(),
            position@.within(MAX_EXTENT as int) ==> block.wf(),
    {
        let color = Self::generate_color();
        let next_change_time = random_in_range(Block::MIN_CHANGE_TIME, Block::MAX_CHANGE_TIME);
        Block { position, color, active: true, time_since_last_change: 0, next_change_time }
    }

    /// Lets `delta_time` pass. A fallen block stays as it is. A standing
    /// block keeps its place and stays standing; once the time since its
    /// last change reaches the time set for the next, it takes a colour
    /// drawn at random and sets a random time for the change after that.
    pub fn update(&mut self, delta_time: u64)
        ensures
            old(self)@.updates_to(final(self)@, delta_time as nat),
            final(self).position == old(self).position,
            final(self).active == old(self).active,
            old(self).wf() ==> final(self).wf(),
    {
        if !self.active {
            return ;
        }
        if self.is_change_due(delta_time) {
            let color = Self::generate_color();
            let next_change_time = random_in_range(
                Block::MIN_CHANGE_TIME,
                Block::MAX_CHANGE_TIME,
            );
            self.recolor(color, next_change_time);
        } else {
            self.time_since_last_change += delta_time;
        }
    }

    /// Whether a standing block is due for a new colour once `delta_time`
    /// more has passed.
    pub fn is_change_due(&self, delta_time: u64) -> (due: bool)
        ensures
            due == self@.change_due(delta_time as nat),
    {
        self.active && (self.time_since_last_change >= self.next_change_time || delta_time
            >= self.next_change_time - self.time_since_last_change)
    }

    /// Gives the block the colour `color` and sets the next change
    /// `next_change_time` from now.
    pub fn recolor(&mut self, color: Rgb, next_change_time: u64)
        ensures
            final(self)@ == old(self)@.recolored(color, next_change_time as nat),
            old(self).wf() ==> final(self).wf(),
    {
        self.color = color;
        self.time_since_last_change = 0;
        self.next_change_time = next_change_time;
    }

    /// A colour drawn at random, each channel by itself. Every colour may
    /// come back, so nothing is promised of the one that does; what becomes
    /// of the three bytes drawn is `Rgb::from_rgb`.
    pub fn generate_color() -> (color: Rgb) {
        let r = random_byte();
        let g = random_byte();
        let b = random_byte();
        Rgb::from_rgb(r, g, b)
    }
}

} // verus!
