//! The service that owns a game and runs it for a requested number of ticks.

use vstd::prelude::*;
use crate::entities::{Block, Paddle, ARENA_WIDTH};
use crate::game::{
    ball_room, distinct_origins, initial_state, lemma_tick_keeps_room, lemma_tick_keeps_wf, lemma_room_shrinks, run,
    state_wf, tick_event, Events, Game,
};

verus! {

/// Why a service call could not be carried out.
#[derive(Clone, Copy, Debug, PartialEq, Eq, Structural)]
pub enum ServiceError {
    /// The service holds no game yet.
    NotInitialized,
    /// An event could not be handed to its receiver.
    NotifyFailed,
}

/// Owns at most one game and advances it on request.
pub struct VaraArkanoidService {
    pub game: Option<Game>,
}

/// The service can run `n` ticks: either it holds no game, or its game is
/// sound and the ball has room for `n` moves.
pub open spec fn can_run(game: Option<Game>, n: nat) -> bool {
    match game {
        Some(g) => state_wf(g@) && ball_room(g.ball, n),
        None => true,
    }
}

/// Whether the paddle keeps to the arena.
fn paddle_ok(p: &Paddle) -> (r: bool)
    ensures
        r == p.wf(),
{
    let x = p.x as i32;
    let w = p.width as i32;
    let speed = p.speed as i32;
    let edge = ARENA_WIDTH as i32;
    (p.direction == 1 || p.direction == -1) && 0 < speed && speed <= 1000 && 0 < w && w < edge
        && ((0 < x && x + w < edge) || (x <= 0 && x > -speed && p.direction == 1) || (x + w >= edge
        && x + w < edge + speed && p.direction == -1))
}

/// Whether the blocks have distinct origins.
fn origins_distinct(blocks: &Vec<Block>) -> (r: bool)
    ensures
        r == distinct_origins(blocks@),
{
    let mut i: usize = 0;
    while i < blocks.len()
        invariant
            i <= blocks@.len(),
            forall|a: int, c: int|
                0 <= a < i && 0 <= c < blocks@.len() && a != c ==> (#[trigger] blocks@[a]).rect_x1
                    != (#[trigger] blocks@[c]).rect_x1 || blocks@[a].rect_y1 != blocks@[c].rect_y1,
        decreases blocks@.len() - i,
    {
        let mut j: usize = 0;
        while j < blocks.len()
            invariant
                i < blocks@.len(),
                j <= blocks@.len(),
                forall|a: int, c: int|
                    0 <= a < i && 0 <= c < blocks@.len() && a != c ==> (
                    #[trigger] blocks@[a]).rect_x1 != (#[trigger] blocks@[c]).rect_x1
                        || blocks@[a].rect_y1 != blocks@[c].rect_y1,
                forall|c: int|
                    0 <= c < j && c != i ==> blocks@[i as int].rect_x1 != (
                    #[trigger] blocks@[c]).rect_x1 || blocks@[i as int].rect_y1
                        != blocks@[c].rect_y1,
            decreases blocks@.len() - j,
        {
            if j != i && blocks[i].rect_x1 == blocks[j].rect_x1 && blocks[i].rect_y1
                == blocks[j].rect_y1 {
                proof {
                    let (a, c) = (i as int, j as int);
                    assert(blocks@[a].rect_x1 == blocks@[c].rect_x1);
                }
                return false;
            }
            j += 1;
        }
        i += 1;
    }
    true
}

/// Whether the ball has room for `n` moves.
fn ball_has_room(game: &Game, n: u32) -> (r: bool)
    ensures
        r == ball_room(game.ball, n as nat),
{
    let b = game.ball;
    let vx: i64 = if b.velocity_x < 0 { -(b.velocity_x as i64) } else { b.velocity_x as i64 };
    let vy: i64 = if b.velocity_y < 0 { -(b.velocity_y as i64) } else { b.velocity_y as i64 };
    let x: i64 = if b.x < 0 { -(b.x as i64) } else { b.x as i64 };
    let y: i64 = if b.y < 0 { -(b.y as i64) } else { b.y as i64 };
    if !(0 < b.radius && b.radius <= 1000 && vx <= 1000 && vy <= 1000) {
        return false;
    }
    assert(0 <= (n as i64) * vx <= 0x1_0000_0000 * 1000) by (nonlinear_arith)
        requires
            0 <= vx <= 1000,
            0 <= n <= 0x1_0000_0000,
    ;
    assert(0 <= (n as i64) * vy <= 0x1_0000_0000 * 1000) by (nonlinear_arith)
        requires
            0 <= vy <= 1000,
            0 <= n <= 0x1_0000_0000,
    ;
    x + (n as i64) * vx <= 30000 && y + (n as i64) * vy <= 30000
}

impl VaraArkanoidService {
    /// A service holding a new game.
    pub fn init() -> (r: VaraArkanoidService)
        ensures
            r.game is Some,
            r.game.unwrap()@ == initial_state(),
            can_run(r.game, 9000),
    {
        let game = Game::new();
        VaraArkanoidService { game: Some(game) }
    }

    /// A service that holds no game yet.
    pub fn new() -> (r: VaraArkanoidService)
        ensures
            r.game is None,
    {
        VaraArkanoidService { game: None }
    }

    /// The game, or `NotInitialized` when there is none.
    pub fn get(&self) -> (r: Result<&Game, ServiceError>)
        ensures
            match r {
                Ok(g) => self.game == Some(*g),
                Err(e) => self.game is None && e == ServiceError::NotInitialized,
            },
    {
        match &self.game {
            Some(g) => Ok(g),
            None => Err(ServiceError::NotInitialized),
        }
    }

    /// The game for changing, or `NotInitialized` when there is none.
    pub fn get_mut(&mut self) -> (r: Result<&mut Game, ServiceError>)
        ensures
            match r {
                Ok(g) => old(self).game == Some(*g) && final(self).game == Some(*final(g)),
                Err(e) => old(self).game is None && final(self).game is None && e
                    == ServiceError::NotInitialized,
            },
    {
        match &mut self.game {
            Some(g) => Ok(g),
            None => Err(ServiceError::NotInitialized),
        }
    }

    /// Whether the service can run `num_steps` ticks without leaving the
    /// integer range.
    pub fn ready_for(&self, num_steps: u32) -> (r: bool)
        ensures
            r == can_run(self.game, num_steps as nat),
    {
        match &self.game {
            Some(g) => paddle_ok(&g.paddle) && origins_distinct(&g.blocks) && ball_has_room(g, num_steps),
            None => true,
        }
    }

    /// Runs `num_steps` ticks in order and returns the event of each, or
    /// `NotInitialized`, with nothing changed, when the service holds no game.
    pub fn simulate_game(&mut self, num_steps: u32) -> (r: Result<Vec<Events>, ServiceError>)
        requires
            can_run(old(self).game, num_steps as nat),
        ensures
            match old(self).game {
                Some(g) => {
                    &&& r is Ok
                    &&& r.unwrap()@.len() == num_steps
                    &&& forall|k: int|
                        0 <= k < num_steps ==> #[trigger] r.unwrap()@[k] == tick_event(
                            run(g@, k as nat),
                        )
                    &&& final(self).game is Some
                    &&& final(self).game.unwrap()@ == run(g@, num_steps as nat)
                },
                None => r == Err::<Vec<Events>, ServiceError>(ServiceError::NotInitialized)
                    && final(self).game is None,
            },
    {
        let mut game = match self.game.take() {
            Some(g) => g,
            None => return Err(ServiceError::NotInitialized),
        };
        let ghost start = game@;
        let mut events: Vec<Events> = Vec::new();
        let mut k: u32 = 0;
        while k < num_steps
            invariant
                k <= num_steps,
                game@ == run(start, k as nat),
                state_wf(game@),
                ball_room(game.ball, (num_steps - k) as nat),
                events@.len() == k,
                forall|j: int| 0 <= j < k ==> #[trigger] events@[j] == tick_event(run(start, j as nat)),
            decreases num_steps - k,
        {
            proof {
                lemma_tick_keeps_room(game@, (num_steps - k - 1) as nat);
                lemma_room_shrinks(game.ball, 1, (num_steps - k) as nat);
                lemma_tick_keeps_wf(game@);
            }
            let event = game.update_game();
            events.push(event);
            k += 1;
        }
        self.game = Some(game);
        Ok(events)
    }
}

/// The program: it sets up a game when created and hands out its service.
pub struct VaraArkanoidProgram {
    pub service: VaraArkanoidService,
}

impl VaraArkanoidProgram {
    /// A program whose service holds a new game.
    pub fn new() -> (r: VaraArkanoidProgram)
        ensures
            r.service.game is Some,
            r.service.game.unwrap()@ == initial_state(),
            can_run(r.service.game, 9000),
    {
        VaraArkanoidProgram { service: VaraArkanoidService::init() }
    }

    /// The program's service, for running the game.
    pub fn vara_arkanoid(&mut self) -> (r: &mut VaraArkanoidService)
        ensures
            *r == old(self).service,
            final(self).service == *final(r),
    {
        &mut self.service
    }
}

} // verus!
