//! The whole game: paddle, blocks and ball, and the step that moves them
//! and settles their collisions.

use crate::ball::{Ball, BallView};
use crate::block::{Block, BlockView};
use crate::collision::{
    collision_ball_block, collision_ball_player, overlaps_rect, reflect_velocity_block_to_ball,
    reflect_velocity_player_to_ball, reflected_off_block, reflected_off_player,
};
use crate::player::{Input, Player, PlayerView};
use crate::units::MAX_EXTENT;
use crate::vector::{Vec2, Vector};
use vstd::arithmetic::div_mod::lemma_fundamental_div_mod_converse;
use vstd::prelude::*;

verus! {

/// The state of a game.
pub struct GameState {
    pub player: Player,
    pub blocks: Vec<Block>,
    pub ball: Ball,
}

/// The state of a game as contracts see it.
pub struct GameStateView {
    pub player: PlayerView,
    pub blocks: Seq<BlockView>,
    pub ball: BallView,
}

impl View for GameState {
    type V = GameStateView;

    open spec fn view(&self) -> GameStateView {
        GameStateView {
            player: self.player@,
            blocks: self.blocks@.map_values(|block: Block| block@),
            ball: self.ball@,
        }
    }
}

/// Where the block in row `row` and column `col` of the grid stands.
pub open spec fn grid_position(row: int, col: int) -> Vector {
    Vector {
        x: col * (Block::BLOCK_SIZE + GameState::BLOCK_PADDING) + GameState::BLOCK_PADDING,
        y: row * (Block::BLOCK_SIZE + GameState::BLOCK_PADDING) + GameState::BLOCK_PADDING,
    }
}

/// The ball after it has met the paddle: bounced off it where the two
/// overlap, and else as it was.
pub open spec fn ball_after_player(ball: BallView, player: PlayerView) -> BallView {
    if overlaps_rect(ball, player.position, player.size) {
        reflected_off_player(ball, player)
    } else {
        ball
    }
}

/// The ball after it has met the first `count` blocks, one after the
/// other: bounced off each standing block that it overlapped when its turn
/// came.
pub open spec fn ball_after_blocks(ball: BallView, blocks: Seq<BlockView>, count: nat) -> BallView
    decreases count,
{
    if count == 0 {
        ball
    } else {
        let before = ball_after_blocks(ball, blocks, (count - 1) as nat);
        let block = blocks[count - 1];
        if block.active && overlaps_rect(before, block.position, BlockView::size()) {
            reflected_off_block(before, block)
        } else {
            before
        }
    }
}

/// Whether the block at `index` is struck as the ball meets the blocks one
/// after the other: it stands, and the ball overlaps it when its turn comes.
pub open spec fn block_struck(ball: BallView, blocks: Seq<BlockView>, index: int) -> bool {
    blocks[index].active && overlaps_rect(
        ball_after_blocks(ball, blocks, index as nat),
        blocks[index].position,
        BlockView::size(),
    )
}

impl GameStateView {
    pub open spec fn wf(self) -> bool {
        &&& self.player.wf()
        &&& self.ball.wf()
        &&& forall|i: int| 0 <= i < self.blocks.len() ==> (#[trigger] self.blocks[i]).wf()
    }

    /// The ball after a step: moved, then bounced off the paddle where it
    /// has moved to, then off the blocks.
    pub open spec fn ball_after_step(
        self,
        input: Input,
        delta_time: nat,
        window_size: Vector,
    ) -> BallView {
        ball_after_blocks(
            self.ball_before_blocks(input, delta_time, window_size),
            self.blocks,
            self.blocks.len(),
        )
    }

    /// The ball in the middle of a step: moved and bounced off the paddle,
    /// the blocks still to come.
    pub open spec fn ball_before_blocks(
        self,
        input: Input,
        delta_time: nat,
        window_size: Vector,
    ) -> BallView {
        ball_after_player(
            self.ball.updated(delta_time, window_size),
            self.player.updated(input, window_size),
        )
    }
}

impl GameState {
    /// Rows of the grid of blocks that a new game starts with.
    pub const ROWS: usize = 8;

    /// Columns of the grid of blocks that a new game starts with.
    pub const COLS: usize = 25;

    /// Gap between neighbouring blocks of the grid, and between the grid
    /// and the top and left edges of the playfield: five pixels.
    pub const BLOCK_PADDING: i64 = 5_000;

    /// The most rows, and the most columns, that a grid can have with all
    /// its blocks within `MAX_EXTENT`.
    pub const MAX_GRID_SIDE: usize = 22_223;

    pub open spec fn wf(&self) -> bool {
        self@.wf()
    }

    /// A new game in a window of extent `window_size`: the paddle and the
    /// ball where each of them starts, and the full grid of blocks.
    pub fn new(window_size: Vec2) -> (state: GameState)
        requires
            window_size@.within_positive(MAX_EXTENT as int),
        ensures
            state@.player == PlayerView::launched(window_size@),
            state@.ball == BallView::launched(window_size@),
            state@.blocks.len() == GameState::ROWS * GameState::COLS,
            forall|i: int|
                0 <= i < state@.blocks.len() ==> {
                    let block = #[trigger] state@.blocks[i];
                    &&& block.position == grid_position(
                        i / GameState::COLS as int,
                        i % GameState::COLS as int,
                    )
                    &&& block.active
                    &&& block.time_since_last_change == 0
                    &&& block.change_time_in_range()
                },
            state.wf(),
    {
        let player = Player::new(window_size);
        let blocks = GameState::generate_blocks(GameState::ROWS, GameState::COLS);
        let ball = Ball::new(window_size);
        GameState { player, blocks, ball }
    }

    /// A grid of standing blocks, `rows` by `cols`, row after row from the
    /// top, each row from the left.
    pub fn generate_blocks(rows: usize, cols: usize) -> (blocks: Vec<Block>)
        requires
            rows <= GameState::MAX_GRID_SIDE,
            cols <= GameState::MAX_GRID_SIDE,
        ensures
            blocks@.len() == rows * cols,
            forall|i: int|
                0 <= i < blocks@.len() ==> {
                    let block = #[trigger] blocks@[i];
                    &&& block@.position == grid_position(i / cols as int, i % cols as int)
                    &&& block.active
                    &&& block.time_since_last_change == 0
                    &&& block@.change_time_in_range()
                    &&& block.wf()
                },
    {
        let mut blocks: Vec<Block> = Vec::new();
        let pitch: i64 = Block::BLOCK_SIZE + GameState::BLOCK_PADDING;
        let mut row: usize = 0;
        while row < rows
            invariant
                row <= rows <= GameState::MAX_GRID_SIDE,
                cols <= GameState::MAX_GRID_SIDE,
                pitch == Block::BLOCK_SIZE + GameState::BLOCK_PADDING,
                blocks@.len() == row * cols,
                forall|i: int|
                    0 <= i < blocks@.len() ==> {
                        let block = #[trigger] blocks@[i];
                        &&& block@.position == grid_position(i / cols as int, i % cols as int)
                        &&& block.active
                        &&& block.time_since_last_change == 0
                        &&& block@.change_time_in_range()
                        &&& block.wf()
                    },
            decreases rows - row,
        {
            let mut col: usize = 0;
            while col < cols
                invariant
                    row < rows <= GameState::MAX_GRID_SIDE,
                    col <= cols <= GameState::MAX_GRID_SIDE,
                    pitch == Block::BLOCK_SIZE + GameState::BLOCK_PADDING,
                    blocks@.len() == row * cols + col,
                    forall|i: int|
                        0 <= i < blocks@.len() ==> {
                            let block = #[trigger] blocks@[i];
                            &&& block@.position == grid_position(
                                i / cols as int,
                                i % cols as int,
                            )
                            &&& block.active
                            &&& block.time_since_last_change == 0
                            &&& block@.change_time_in_range()
                            &&& block.wf()
                        },
                decreases cols - col,
            {
                assert(0 <= col * pitch <= 1_000_035_000 && 0 <= row * pitch <= 1_000_035_000)
                    by (nonlinear_arith)
                    requires
                        pitch == 45_000,
                        col <= 22_223,
                        row <= 22_223,
                ;
                let x: i64 = (col as i64) * pitch + GameState::BLOCK_PADDING;
                let y: i64 = (row as i64) * pitch + GameState::BLOCK_PADDING;
                let block = Block::new(Vec2 { x, y });
                proof {
                    let i = blocks@.len() as int;
                    assert(i == cols * row + col) by (nonlinear_arith)
                        requires
                            i == row * cols + col,
                    ;
                    lemma_fundamental_div_mod_converse(i, cols as int, row as int, col as int);
                }
                blocks.push(block);
                col += 1;
            }
            assert(row * cols + cols == (row + 1) * cols) by (nonlinear_arith);
            row += 1;
        }
        blocks
    }

    /// Advances the game by one step: the paddle moves as the keys ask, the
    /// ball moves, every block lets `delta_time` pass, the ball bounces off
    /// the paddle where the two overlap, and then off each standing block
    /// that it overlaps when that block's turn comes. A block that the ball
    /// struck falls; no fallen block stands up again, and no block moves.
    pub fn update(&mut self, input: &Input, delta_time: u64, window_size: Vec2)
        requires
            old(self).wf(),
            window_size@.within_positive(MAX_EXTENT as int),
        ensures
            final(self).wf(),
            final(self)@.player == old(self)@.player.updated(*input, window_size@),
            final(self)@.ball == old(self)@.ball_after_step(
                *input,
                delta_time as nat,
                window_size@,
            ),
            final(self)@.blocks.len() == old(self)@.blocks.len(),
            forall|i: int|
                0 <= i < old(self)@.blocks.len() ==> {
                    let before = #[trigger] old(self)@.blocks[i];
                    let after = final(self)@.blocks[i];
                    &&& after.position == before.position
                    &&& after.active == (before.active && !block_struck(
                        old(self)@.ball_before_blocks(*input, delta_time as nat, window_size@),
                        old(self)@.blocks,
                        i,
                    ))
                    &&& before.updates_to(
                        (BlockView { active: before.active, ..after }),
                        delta_time as nat,
                    )
                },
    {
        self.player.update(input, window_size);
        self.ball.update(delta_time, window_size);

        let ghost player = self.player;
        let ghost moved = self.ball;
        let count = self.blocks.len();
        assert forall|j: int| 0 <= j < count implies (#[trigger] old(self).blocks@[j]).wf() by {
            assert(old(self)@.blocks[j].wf());
        }
        let mut i: usize = 0;
        while i < count
            invariant
                i <= count == self.blocks@.len() == old(self).blocks@.len(),
                forall|j: int| 0 <= j < count ==> (#[trigger] old(self).blocks@[j]).wf(),
                self.player == player,
                self.ball == moved,
                forall|j: int|
                    0 <= j < i ==> (#[trigger] old(self).blocks@[j])@.updates_to(
                        self.blocks@[j]@,
                        delta_time as nat,
                    ),
                forall|j: int|
                    0 <= j < i ==> {
                        let block = #[trigger] self.blocks@[j];
                        &&& block.position == old(self).blocks@[j].position
                        &&& block.active == old(self).blocks@[j].active
                    },
                forall|j: int|
                    i <= j < count ==> #[trigger] self.blocks@[j] == old(self).blocks@[j],
            decreases count - i,
        {
            let mut block = self.blocks[i];
            block.update(delta_time);
            self.blocks.set(i, block);
            i += 1;
        }

        if collision_ball_player(&self.ball, &self.player) {
            reflect_velocity_player_to_ball(&mut self.ball, &self.player);
        }
        let ghost aged = self.blocks@;
        let ghost before = old(self)@.blocks;
        let ghost start = self.ball@;

        let mut i: usize = 0;
        while i < count
            invariant
                i <= count == self.blocks@.len() == aged.len() == before.len(),
                self.player == player,
                self.ball.wf(),
                before == old(self)@.blocks,
                self.ball@ == ball_after_blocks(start, before, i as nat),
                forall|j: int|
                    0 <= j < count ==> {
                        let block = #[trigger] aged[j];
                        &&& block.wf()
                        &&& block.position@ == before[j].position
                        &&& block.active == before[j].active
                    },
                forall|j: int|
                    0 <= j < i ==> #[trigger] self.blocks@[j] == (Block {
                        active: before[j].active && !block_struck(start, before, j),
                        ..aged[j]
                    }),
                forall|j: int| i <= j < count ==> #[trigger] self.blocks@[j] == aged[j],
            decreases count - i,
        {
            let mut block = self.blocks[i];
            if block.active {
                if collision_ball_block(&self.ball, &block) {
                    reflect_velocity_block_to_ball(&mut self.ball, &block);
                    block.active = false;
                    self.blocks.set(i, block);
                }
            }
            i += 1;
        }
    }
}

} // verus!
