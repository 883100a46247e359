//! The game engine: one tick of ball and paddle movement with wall, paddle
//! and block collisions, and the event that reports it.

use vstd::prelude::*;
use vstd::arithmetic::div_mod::{lemma_fundamental_div_mod, lemma_fundamental_div_mod_converse};
use crate::collision::{check_circle_rectangle_collision, contact};
use crate::entities::{
    block_at, paddle_moved, lemma_paddle_stays_in_arena, Ball, Block, Paddle, ARENA_HEIGHT,
    ARENA_WIDTH,
};

verus! {

/// Number of block rows in a new game.
pub const BLOCK_ROWS: i16 = 7;

/// Number of block columns in a new game.
pub const BLOCK_COLS: i16 = 30;

/// Distance between the origins of neighbouring blocks, on both axes.
pub const BLOCK_SPACING: i16 = 35;

/// The arena side that the ball touched during a tick.
#[derive(Clone, Copy, Debug, PartialEq, Eq, Structural)]
pub enum WallAxis {
    /// The left or the right side.
    Vertical,
    /// The top or the bottom side.
    Horizontal,
}

/// What a tick reports.
#[derive(Clone, Copy, Debug, PartialEq, Eq)]
pub enum Events {
    GameStep {
        ball: Ball,
        paddle: Paddle,
        wall_collision: Option<WallAxis>,
        paddle_collision: bool,
        block_hit: Option<(i16, i16)>,
    },
}

/// The whole state of a game: ball, paddle and remaining blocks in order.
pub type GameModel = (Ball, Paddle, Seq<Block>);

/// `v` with its sign reversed.
pub open spec fn neg(v: i16) -> i16 {
    (-v) as i16
}

/// The ball moved by its velocity.
pub open spec fn ball_moved(b: Ball) -> Ball {
    Ball { x: (b.x + b.velocity_x) as i16, y: (b.y + b.velocity_y) as i16, ..b }
}

/// The ball touches or passes the left or the right side.
pub open spec fn at_vertical_wall(b: Ball) -> bool {
    b.x - b.radius <= 0 || b.x + b.radius >= ARENA_WIDTH
}

/// The ball touches or passes the top or the bottom side.
pub open spec fn at_horizontal_wall(b: Ball) -> bool {
    b.y - b.radius <= 0 || b.y + b.radius >= ARENA_HEIGHT
}

/// The ball after bouncing off the arena sides it touches.
pub open spec fn after_walls(b: Ball) -> Ball {
    Ball {
        velocity_x: if at_vertical_wall(b) { neg(b.velocity_x) } else { b.velocity_x },
        velocity_y: if at_horizontal_wall(b) { neg(b.velocity_y) } else { b.velocity_y },
        ..b
    }
}

/// The side reported for a ball: the horizontal one wins when both are touched.
pub open spec fn wall_axis(b: Ball) -> Option<WallAxis> {
    if at_horizontal_wall(b) {
        Some(WallAxis::Horizontal)
    } else if at_vertical_wall(b) {
        Some(WallAxis::Vertical)
    } else {
        None
    }
}

/// The ball's lowest point reaches the paddle's line while its centre lies
/// within the paddle's horizontal extent.
pub open spec fn touches_paddle(b: Ball, p: Paddle) -> bool {
    b.y + b.radius >= p.y && b.x >= p.x && b.x <= p.x + p.width
}

/// The ball after bouncing off the paddle, if it touches it.
pub open spec fn after_paddle(b: Ball, p: Paddle) -> Ball {
    if touches_paddle(b, p) {
        Ball { velocity_y: neg(b.velocity_y), ..b }
    } else {
        b
    }
}

/// Contact between the ball and a block.
pub open spec fn block_contact(b: Ball, blk: Block) -> Option<(bool, bool)> {
    contact(
        b.x as int,
        b.y as int,
        b.radius as int,
        blk.rect_x1 as int,
        blk.rect_y1 as int,
        blk.rect_x2 as int,
        blk.rect_y2 as int,
    )
}

/// Index of the first of the first `n` blocks that the ball touches.
pub open spec fn first_hit_upto(blocks: Seq<Block>, b: Ball, n: nat) -> Option<int>
    decreases n,
{
    if n == 0 {
        None
    } else {
        match first_hit_upto(blocks, b, (n - 1) as nat) {
            Some(i) => Some(i),
            None => if block_contact(b, blocks[n - 1]) is Some {
                Some(n - 1)
            } else {
                None
            },
        }
    }
}

/// Index of the first block that the ball touches.
pub open spec fn first_hit(blocks: Seq<Block>, b: Ball) -> Option<int> {
    first_hit_upto(blocks, b, blocks.len())
}

/// The ball after bouncing off the first block it touches: each velocity
/// component reverses when the contact lies on a face across it.
pub open spec fn after_block(b: Ball, blocks: Seq<Block>) -> Ball {
    match first_hit(blocks, b) {
        Some(i) => {
            let c = block_contact(b, blocks[i]).unwrap();
            Ball {
                velocity_x: if c.0 { neg(b.velocity_x) } else { b.velocity_x },
                velocity_y: if c.1 { neg(b.velocity_y) } else { b.velocity_y },
                ..b
            }
        },
        None => b,
    }
}

/// The blocks that remain once the first block that the ball touches is gone.
pub open spec fn blocks_after(blocks: Seq<Block>, b: Ball) -> Seq<Block> {
    match first_hit(blocks, b) {
        Some(i) => blocks.remove(i),
        None => blocks,
    }
}

/// The ball after the movement, wall and paddle stages of a tick.
pub open spec fn ball_before_blocks(s: GameModel) -> Ball {
    after_paddle(after_walls(ball_moved(s.0)), paddle_moved(s.1))
}

/// The state after one tick.
pub open spec fn tick(s: GameModel) -> GameModel {
    let b = ball_before_blocks(s);
    (after_block(b, s.2), paddle_moved(s.1), blocks_after(s.2, b))
}

/// The event that one tick reports.
pub open spec fn tick_event(s: GameModel) -> Events {
    let moved = ball_moved(s.0);
    let b = ball_before_blocks(s);
    let next = tick(s);
    Events::GameStep {
        ball: next.0,
        paddle: next.1,
        wall_collision: wall_axis(moved),
        paddle_collision: touches_paddle(after_walls(moved), next.1),
        block_hit: match first_hit(s.2, b) {
            Some(i) => Some((s.2[i].rect_x1, s.2[i].rect_y1)),
            None => None,
        },
    }
}

/// The state after `n` ticks.
pub open spec fn run(s: GameModel, n: nat) -> GameModel
    decreases n,
{
    if n == 0 {
        s
    } else {
        tick(run(s, (n - 1) as nat))
    }
}

/// Absolute value.
pub open spec fn abs(v: int) -> int {
    if v < 0 {
        -v
    } else {
        v
    }
}

/// The ball can move for `n` more ticks without leaving the integer range:
/// radius and speeds are bounded, and each coordinate stays far enough from
/// the limits even after `n` moves at full speed.
pub open spec fn ball_room(b: Ball, n: nat) -> bool {
    &&& 0 < b.radius <= 1000
    &&& abs(b.velocity_x as int) <= 1000
    &&& abs(b.velocity_y as int) <= 1000
    &&& abs(b.x as int) + n * abs(b.velocity_x as int) <= 30000
    &&& abs(b.y as int) + n * abs(b.velocity_y as int) <= 30000
}

/// No two blocks share an origin corner.
pub open spec fn distinct_origins(blocks: Seq<Block>) -> bool {
    forall|i: int, j: int|
        0 <= i < blocks.len() && 0 <= j < blocks.len() && i != j ==> (
        #[trigger] blocks[i]).rect_x1 != (#[trigger] blocks[j]).rect_x1 || blocks[i].rect_y1
            != blocks[j].rect_y1
}

/// Origin corner of the block at position `k` of a new game's grid.
pub open spec fn grid_origin(k: int) -> (int, int) {
    ((k % BLOCK_COLS as int) * BLOCK_SPACING, (k / BLOCK_COLS as int) * BLOCK_SPACING)
}

/// The blocks of a new game, row by row.
pub open spec fn initial_blocks() -> Seq<Block> {
    Seq::new(
        (BLOCK_ROWS * BLOCK_COLS) as nat,
        |k: int| block_at(grid_origin(k).0, grid_origin(k).1),
    )
}

/// The state of a new game.
pub open spec fn initial_state() -> GameModel {
    (
        Ball { x: 400, y: 300, radius: 15, velocity_x: 3, velocity_y: 3 },
        Paddle { x: 375, y: 550, width: 400, speed: 5, direction: 1 },
        initial_blocks(),
    )
}

/// A game: one ball, one paddle and the remaining blocks.
pub struct Game {
    pub ball: Ball,
    pub blocks: Vec<Block>,
    pub paddle: Paddle,
}

impl View for Game {
    type V = GameModel;

    open spec fn view(&self) -> GameModel {
        (self.ball, self.paddle, self.blocks@)
    }
}

/// The state of a game is sound: the paddle keeps to the arena and the
/// blocks have distinct origins.
pub open spec fn state_wf(s: GameModel) -> bool {
    s.1.wf() && distinct_origins(s.2)
}

/// Finds the first block that the ball touches, and the contact on it.
fn first_block_hit(blocks: &Vec<Block>, ball: &Ball) -> (r: Option<(usize, (bool, bool))>)
    ensures
        match r {
            Some((i, c)) => first_hit(blocks@, *ball) == Some(i as int) && i < blocks@.len()
                && block_contact(*ball, blocks@[i as int]) == Some(c),
            None => first_hit(blocks@, *ball) is None,
        },
{
    let mut i: usize = 0;
    while i < blocks.len()
        invariant
            i <= blocks@.len(),
            first_hit_upto(blocks@, *ball, i as nat) is None,
        decreases blocks@.len() - i,
    {
        let block = blocks[i];
        let found = check_circle_rectangle_collision(
            ball.x,
            ball.y,
            ball.radius,
            block.rect_x1,
            block.rect_y1,
            block.rect_x2,
            block.rect_y2,
        );
        match found {
            Some(c) => {
                proof {
                    assert(first_hit_upto(blocks@, *ball, (i + 1) as nat) == Some(i as int));
                    lemma_first_hit_settled(blocks@, *ball, (i + 1) as nat, blocks@.len());
                }
                return Some((i, c));
            },
            None => {},
        }
        i += 1;
    }
    None
}

/// Once a hit is found among the first `n` blocks, looking further finds the same one.
proof fn lemma_first_hit_settled(blocks: Seq<Block>, b: Ball, n: nat, m: nat)
    requires
        n <= m,
        first_hit_upto(blocks, b, n) is Some,
    ensures
        first_hit_upto(blocks, b, m) == first_hit_upto(blocks, b, n),
    decreases m - n,
{
    if n < m {
        lemma_first_hit_settled(blocks, b, n, (m - 1) as nat);
    }
}

/// Removing a block keeps the origins distinct.
proof fn lemma_remove_keeps_distinct(blocks: Seq<Block>, i: int)
    requires
        distinct_origins(blocks),
        0 <= i < blocks.len(),
    ensures
        distinct_origins(blocks.remove(i)),
{
    let r = blocks.remove(i);
    assert forall|a: int, c: int|
        0 <= a < r.len() && 0 <= c < r.len() && a != c implies (#[trigger] r[a]).rect_x1
        != (#[trigger] r[c]).rect_x1 || r[a].rect_y1 != r[c].rect_y1 by {
        let a0 = if a < i { a } else { a + 1 };
        let c0 = if c < i { c } else { c + 1 };
        assert(r[a] == blocks[a0] && r[c] == blocks[c0]);
    }
}

/// The origins of a new game's grid are distinct, and each stands at its row
/// and column.
proof fn lemma_grid_origin(row: int, col: int)
    requires
        0 <= row,
        0 <= col < BLOCK_COLS,
    ensures
        grid_origin(row * BLOCK_COLS + col) == (col * BLOCK_SPACING, row * BLOCK_SPACING),
{
    lemma_fundamental_div_mod_converse(row * 30 + col, 30, row, col);
}

proof fn lemma_initial_blocks_distinct()
    ensures
        distinct_origins(initial_blocks()),
{
    let s = initial_blocks();
    assert forall|a: int, c: int|
        0 <= a < s.len() && 0 <= c < s.len() && a != c implies (#[trigger] s[a]).rect_x1
        != (#[trigger] s[c]).rect_x1 || s[a].rect_y1 != s[c].rect_y1 by {
        lemma_fundamental_div_mod(a, 30);
        lemma_fundamental_div_mod(c, 30);
        assert(0 <= a % 30 < 30 && 0 <= a / 30 < 7) by (nonlinear_arith)
            requires
                0 <= a < 210,
                a == 30 * (a / 30) + a % 30,
        ;
        assert(0 <= c % 30 < 30 && 0 <= c / 30 < 7) by (nonlinear_arith)
            requires
                0 <= c < 210,
                c == 30 * (c / 30) + c % 30,
        ;
    }
}

impl Game {
    /// A new game: the ball and the paddle at their starting places and a
    /// full grid of blocks.
    pub fn new() -> (r: Game)
        ensures
            r@ == initial_state(),
            state_wf(r@),
    {
        let mut blocks: Vec<Block> = Vec::new();
        let mut row: i16 = 0;
        while row < BLOCK_ROWS
            invariant
                0 <= row <= BLOCK_ROWS,
                blocks@.len() == row * BLOCK_COLS,
                forall|k: int|
                    0 <= k < blocks@.len() ==> #[trigger] blocks@[k] == block_at(
                        grid_origin(k).0,
                        grid_origin(k).1,
                    ),
            decreases BLOCK_ROWS - row,
        {
            let mut col: i16 = 0;
            while col < BLOCK_COLS
                invariant
                    0 <= row < BLOCK_ROWS,
                    0 <= col <= BLOCK_COLS,
                    blocks@.len() == row * BLOCK_COLS + col,
                    forall|k: int|
                        0 <= k < blocks@.len() ==> #[trigger] blocks@[k] == block_at(
                            grid_origin(k).0,
                            grid_origin(k).1,
                        ),
                decreases BLOCK_COLS - col,
            {
                let x = col * BLOCK_SPACING;
                let y = row * BLOCK_SPACING;
                proof {
                    lemma_grid_origin(row as int, col as int);
                }
                blocks.push(Block::new(x, y));
                col += 1;
            }
            row += 1;
        }
        proof {
            assert(blocks@ =~= initial_blocks());
            lemma_initial_blocks_distinct();
            lemma_paddle_stays_in_arena(Paddle { x: 375, y: 550, width: 400, speed: 5, direction: 1 });
        }
        Game { ball: Ball::new(), blocks, paddle: Paddle::new() }
    }

    /// Advances the game by one tick and reports what happened: the ball
    /// moves by its velocity, the paddle moves, the ball bounces off the
    /// arena sides, the paddle and the first block it touches, and that block
    /// is removed.
    pub fn update_game(&mut self) -> (r: Events)
        requires
            state_wf(old(self)@),
            ball_room(old(self).ball, 1),
        ensures
            final(self)@ == tick(old(self)@),
            r == tick_event(old(self)@),
            state_wf(final(self)@),
            final(self).ball.x == old(self).ball.x + old(self).ball.velocity_x,
            final(self).ball.y == old(self).ball.y + old(self).ball.velocity_y,
    {
        proof {
            lemma_paddle_stays_in_arena(self.paddle);
        }
        self.ball.x += self.ball.velocity_x;
        self.ball.y += self.ball.velocity_y;

        self.paddle.update_position();

        let mut wall_collision: Option<WallAxis> = None;
        let mut paddle_collision = false;
        let mut block_hit: Option<(i16, i16)> = None;

        if self.ball.x - self.ball.radius <= 0 || self.ball.x + self.ball.radius >= ARENA_WIDTH {
            self.ball.velocity_x = -self.ball.velocity_x;
            wall_collision = Some(WallAxis::Vertical);
        }
        if self.ball.y - self.ball.radius <= 0 || self.ball.y + self.ball.radius >= ARENA_HEIGHT {
            self.ball.velocity_y = -self.ball.velocity_y;
            wall_collision = Some(WallAxis::Horizontal);
        }

        if self.ball.y + self.ball.radius >= self.paddle.y && self.ball.x >= self.paddle.x
            && self.ball.x <= self.paddle.x + self.paddle.width {
            self.ball.velocity_y = -self.ball.velocity_y;
            paddle_collision = true;
        }

        match first_block_hit(&self.blocks, &self.ball) {
            Some((i, (collision_x, collision_y))) => {
                if collision_x {
                    self.ball.velocity_x = -self.ball.velocity_x;
                }
                if collision_y {
                    self.ball.velocity_y = -self.ball.velocity_y;
                }
                let block = self.blocks[i];
                block_hit = Some((block.rect_x1, block.rect_y1));
                proof {
                    lemma_remove_keeps_distinct(self.blocks@, i as int);
                }
                self.blocks.remove(i);
            },
            None => {},
        }

        Events::GameStep {
            ball: self.ball,
            paddle: self.paddle,
            wall_collision,
            paddle_collision,
            block_hit,
        }
    }
}

/// The first hit among the first `n` blocks is the lowest index of a
/// touched block, and there is none exactly when no block there is touched.
proof fn lemma_first_hit_upto(blocks: Seq<Block>, b: Ball, n: nat)
    requires
        n <= blocks.len(),
    ensures
        match first_hit_upto(blocks, b, n) {
            Some(i) => 0 <= i < n && block_contact(b, blocks[i]) is Some && forall|j: int|
                0 <= j < i ==> (#[trigger] block_contact(b, blocks[j])) is None,
            None => forall|j: int| 0 <= j < n ==> (#[trigger] block_contact(b, blocks[j])) is None,
        },
    decreases n,
{
    if n > 0 {
        lemma_first_hit_upto(blocks, b, (n - 1) as nat);
    }
}

/// Whether the block that the ball hits in this tick reverses its horizontal
/// velocity.
pub open spec fn block_turns_x(s: GameModel) -> bool {
    let b = ball_before_blocks(s);
    match first_hit(s.2, b) {
        Some(i) => block_contact(b, s.2[i]).unwrap().0,
        None => false,
    }
}

/// A tick moves the ball by exactly its velocity before any bounce.
pub proof fn lemma_tick_moves_ball(s: GameModel)
    requires
        ball_room(s.0, 1),
    ensures
        tick(s).0.x == s.0.x + s.0.velocity_x,
        tick(s).0.y == s.0.y + s.0.velocity_y,
{
}

/// A ball that touches the left or right side has its horizontal velocity
/// reversed by the wall stage exactly once, and otherwise kept; over the
/// whole tick it ends reversed exactly when one of the wall and the block hit
/// reverses it.
pub proof fn lemma_wall_bounce(s: GameModel)
    requires
        ball_room(s.0, 1),
    ensures
        after_walls(ball_moved(s.0)).velocity_x == if at_vertical_wall(ball_moved(s.0)) {
            -s.0.velocity_x
        } else {
            s.0.velocity_x as int
        },
        tick(s).0.velocity_x == if at_vertical_wall(ball_moved(s.0)) != block_turns_x(s) {
            -s.0.velocity_x
        } else {
            s.0.velocity_x as int
        },
{
}

/// A tick removes at most one block: the first one, in order, that the ball
/// touches; the others stay in their order. When the ball touches none, the
/// blocks are unchanged.
pub proof fn lemma_one_block_per_tick(s: GameModel)
    ensures
        match first_hit(s.2, ball_before_blocks(s)) {
            Some(i) => {
                &&& 0 <= i < s.2.len()
                &&& block_contact(ball_before_blocks(s), s.2[i]) is Some
                &&& forall|j: int|
                    0 <= j < i ==> (#[trigger] block_contact(ball_before_blocks(s), s.2[j])) is None
                &&& tick(s).2 == s.2.remove(i)
                &&& tick(s).2.len() == s.2.len() - 1
            },
            None => {
                &&& forall|j: int|
                    0 <= j < s.2.len() ==> (#[trigger] block_contact(
                        ball_before_blocks(s),
                        s.2[j],
                    )) is None
                &&& tick(s).2 == s.2
            },
        },
{
    lemma_first_hit_upto(s.2, ball_before_blocks(s), s.2.len());
}

/// Every block left after a tick was there before it, and there are no more
/// blocks than before.
proof fn lemma_tick_keeps_blocks(s: GameModel)
    ensures
        tick(s).2.len() <= s.2.len(),
        forall|blk: Block| #[trigger] tick(s).2.contains(blk) ==> s.2.contains(blk),
{
    lemma_one_block_per_tick(s);
    match first_hit(s.2, ball_before_blocks(s)) {
        Some(i) => {
            assert forall|blk: Block| #[trigger] tick(s).2.contains(blk) implies s.2.contains(
                blk,
            ) by {
                let k = choose|k: int| 0 <= k < tick(s).2.len() && tick(s).2[k] == blk;
                let k0 = if k < i { k } else { k + 1 };
                assert(s.2[k0] == blk);
            }
        },
        None => {},
    }
}

/// A block gone from the game never comes back, and the number of blocks
/// never grows: every block present after `n` ticks was present after any
/// earlier number `m` of ticks.
pub proof fn lemma_blocks_never_return(s: GameModel, m: nat, n: nat)
    requires
        m <= n,
    ensures
        run(s, n).2.len() <= run(s, m).2.len(),
        forall|blk: Block| #[trigger] run(s, n).2.contains(blk) ==> run(s, m).2.contains(blk),
    decreases n - m,
{
    if m < n {
        lemma_blocks_never_return(s, m, (n - 1) as nat);
        lemma_tick_keeps_blocks(run(s, (n - 1) as nat));
    }
}

/// A ball with room for `n + 1` ticks has room for `n` more after one tick.
pub proof fn lemma_tick_keeps_room(s: GameModel, n: nat)
    requires
        ball_room(s.0, n + 1),
    ensures
        ball_room(tick(s).0, n),
{
    let b = s.0;
    let vx = abs(b.velocity_x as int);
    let vy = abs(b.velocity_y as int);
    assert((n + 1) * vx == n * vx + vx) by (nonlinear_arith);
    assert((n + 1) * vy == n * vy + vy) by (nonlinear_arith);
    assert(0 <= n * vx && 0 <= n * vy) by (nonlinear_arith)
        requires
            0 <= vx && 0 <= vy,
    ;
}

/// A sound state stays sound after a tick.
pub proof fn lemma_tick_keeps_wf(s: GameModel)
    requires
        state_wf(s),
    ensures
        state_wf(tick(s)),
{
    lemma_paddle_stays_in_arena(s.1);
    lemma_one_block_per_tick(s);
    match first_hit(s.2, ball_before_blocks(s)) {
        Some(i) => lemma_remove_keeps_distinct(s.2, i),
        None => {},
    }
}

/// Room for `n` moves is room for any fewer.
pub proof fn lemma_room_shrinks(b: Ball, m: nat, n: nat)
    requires
        ball_room(b, n),
        m <= n,
    ensures
        ball_room(b, m),
{
    let vx = abs(b.velocity_x as int);
    let vy = abs(b.velocity_y as int);
    assert(m * vx <= n * vx && m * vy <= n * vy) by (nonlinear_arith)
        requires
            0 <= vx && 0 <= vy && m <= n,
    ;
}

/// From a new game, no number of ticks leaves more than the full grid of
/// blocks.
pub proof fn lemma_block_count_from_start(n: nat)
    ensures
        run(initial_state(), n).2.len() <= BLOCK_ROWS * BLOCK_COLS,
{
    lemma_blocks_never_return(initial_state(), 0, n);
}

} // verus!
