//! Plain entity records of the arena: the ball, the paddle and the blocks.

use vstd::prelude::*;

verus! {

/// Width of the arena; the ball and the paddle bounce off its sides.
pub const ARENA_WIDTH: i16 = 800;

/// Height of the arena; the ball bounces off its top and bottom.
pub const ARENA_HEIGHT: i16 = 600;

/// Width of every block.
pub const BLOCK_WIDTH: i16 = 30;

/// Height of every block.
pub const BLOCK_HEIGHT: i16 = 30;

/// The ball: its centre, its radius and its velocity per tick.
#[derive(Clone, Copy, Debug, PartialEq, Eq, Structural)]
pub struct Ball {
    pub x: i16,
    pub y: i16,
    pub radius: i16,
    pub velocity_x: i16,
    pub velocity_y: i16,
}

impl Ball {
    /// The ball at the start of a game.
    pub fn new() -> (r: Ball)
        ensures
            r == (Ball { x: 400, y: 300, radius: 15, velocity_x: 3, velocity_y: 3 }),
    {
        Ball { x: 400, y: 300, radius: 15, velocity_x: 3, velocity_y: 3 }
    }
}

/// An axis-aligned block with corners `(rect_x1, rect_y1)` and `(rect_x2, rect_y2)`.
#[derive(Clone, Copy, Debug, PartialEq, Eq, Structural)]
pub struct Block {
    pub rect_x1: i16,
    pub rect_y1: i16,
    pub rect_x2: i16,
    pub rect_y2: i16,
}

/// The block whose origin corner is `(x1, y1)`.
pub open spec fn block_at(x1: int, y1: int) -> Block {
    Block {
        rect_x1: x1 as i16,
        rect_y1: y1 as i16,
        rect_x2: (x1 + BLOCK_WIDTH) as i16,
        rect_y2: (y1 + BLOCK_HEIGHT) as i16,
    }
}

impl Block {
    /// A block of the fixed size with its origin corner at `(x1, y1)`.
    pub fn new(x1: i16, y1: i16) -> (r: Block)
        requires
            x1 + BLOCK_WIDTH <= i16::MAX,
            y1 + BLOCK_HEIGHT <= i16::MAX,
        ensures
            r == block_at(x1 as int, y1 as int),
            r.rect_x1 == x1,
            r.rect_y1 == y1,
            r.rect_x2 == x1 + BLOCK_WIDTH,
            r.rect_y2 == y1 + BLOCK_HEIGHT,
    {
        Block { rect_x1: x1, rect_y1: y1, rect_x2: x1 + BLOCK_WIDTH, rect_y2: y1 + BLOCK_HEIGHT }
    }
}

/// The paddle: its position, width, speed per tick and direction (`1` or `-1`).
#[derive(Clone, Copy, Debug, PartialEq, Eq, Structural)]
pub struct Paddle {
    pub x: i16,
    pub y: i16,
    pub width: i16,
    pub speed: i16,
    pub direction: i16,
}

/// The paddle after one move: shifted by `speed * direction`, and with its
/// direction reversed when the new position touches or passes an arena side.
pub open spec fn paddle_moved(p: Paddle) -> Paddle {
    let x = (p.x + p.speed * p.direction) as i16;
    Paddle {
        x,
        direction: if x <= 0 || x + p.width >= ARENA_WIDTH {
            (-p.direction) as i16
        } else {
            p.direction
        },
        ..p
    }
}

impl Paddle {
    /// Whether a move cannot overflow: a unit direction, a bounded speed and
    /// width, and a position well inside the integer range.
    pub open spec fn can_move(self) -> bool {
        &&& self.direction == 1 || self.direction == -1
        &&& 0 <= self.speed <= 1000
        &&& 0 <= self.width <= 1000
        &&& -30000 <= self.x <= 30000
    }

    /// The paddle keeps to the arena: its direction is a unit, its speed and
    /// width are positive and bounded, and it is either strictly inside the
    /// arena, or has touched or passed one side by less than one step and is
    /// already heading back.
    pub open spec fn wf(self) -> bool {
        &&& self.direction == 1 || self.direction == -1
        &&& 0 < self.speed <= 1000
        &&& 0 < self.width < ARENA_WIDTH
        &&& {
            ||| (0 < self.x && self.x + self.width < ARENA_WIDTH)
            ||| (self.x <= 0 && self.x > -self.speed && self.direction == 1)
            ||| (self.x + self.width >= ARENA_WIDTH && self.x + self.width < ARENA_WIDTH
                + self.speed && self.direction == -1)
        }
    }

    /// The paddle at the start of a game.
    pub fn new() -> (r: Paddle)
        ensures
            r == (Paddle { x: 375, y: 550, width: 400, speed: 5, direction: 1 }),
            r.wf(),
    {
        Paddle { x: 375, y: 550, width: 400, speed: 5, direction: 1 }
    }

    /// Moves the paddle by one step and reverses its direction exactly when
    /// the new position touches or passes a side of the arena.
    pub fn update_position(&mut self)
        requires
            old(self).can_move(),
        ensures
            *final(self) == paddle_moved(*old(self)),
            final(self).x == old(self).x + old(self).speed * old(self).direction,
            final(self).direction == if final(self).x <= 0 || final(self).x + final(self).width
                >= ARENA_WIDTH {
                -old(self).direction
            } else {
                old(self).direction as int
            },
    {
        self.x += self.speed * self.direction;
        if self.x <= 0 || self.x + self.width >= ARENA_WIDTH {
            self.direction = -self.direction;
        }
    }
}

/// A paddle that keeps to the arena still does so after a move.
pub proof fn lemma_paddle_stays_in_arena(p: Paddle)
    requires
        p.wf(),
    ensures
        p.can_move(),
        paddle_moved(p).wf(),
{
    if p.direction == 1 {
        assert(p.speed * p.direction == p.speed);
    } else {
        assert(p.speed * p.direction == -p.speed);
    }
}

} // verus!
