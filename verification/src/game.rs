use vstd::prelude::*;
use crate::config::{
    BALL_SIZE, BALL_START_SPEED, BLOCK_CELL_WIDTH, BLOCK_HEIGHT, BLOCK_ROW_HEIGHT,
    BLOCK_TOP_OFFSET, BLOCK_WIDTH, FIELD_HALF_HEIGHT, FIELD_HALF_WIDTH, GRID_BLOCKS, GRID_COLS,
    GRID_GAP, MAX_TICK_MS, PADDLE_HEIGHT, PADDLE_START_Y, PADDLE_WIDTH,
};
use crate::store::{Entity, Role, Store, Velocity};
use crate::systems::{
    ball_blocks_collision, ball_bounds_collision, ball_fits, ball_movement, ball_player_collision,
    ball_vel_negatable, player_movement, spec_ball_movement, spec_block_collision,
    spec_paddle_bounce, spec_player_movement, spec_wall_collision,
};

verus! {

/// The two-state game flow: the menu is up, or a session is being played.
/// The only transition is `MenuShown` to `Playing`, on the start trigger.
#[derive(Clone, Copy, Debug, PartialEq, Eq, Structural)]
pub enum GameState {
    MenuShown,
    Playing,
}

/// The score counter: reset to zero when play starts, raised by exactly
/// one per destroyed block, never negative.
#[derive(Clone, Copy, Debug, PartialEq, Eq, Structural)]
pub struct Scoreboard {
    pub score: i32,
}

/// One tick's worth of host input: elapsed time in milliseconds, the held
/// directional keys, and whether the start control fired.
#[derive(Clone, Copy, Debug)]
pub struct InputSnapshot {
    pub elapsed_ms: i64,
    pub left_held: bool,
    pub right_held: bool,
    pub start_triggered: bool,
}

/// The whole simulation: game-flow state, score, and the entity store,
/// threaded through each tick by the host.
pub struct Simulation {
    pub state: GameState,
    pub scoreboard: Scoreboard,
    pub store: Store,
}

/// Mathematical snapshot of a simulation, over which the tick relation
/// and the library's laws are stated.
pub struct SimModel {
    pub state: GameState,
    pub score: int,
    pub entities: Seq<Entity>,
    pub next_id: int,
}

/// The paddle as spawned on entering play: centered horizontally, near
/// the bottom edge, with no velocity.
pub open spec fn paddle_entity(id: u64) -> Entity {
    Entity {
        id,
        role: Role::Paddle,
        x: 0,
        y: PADDLE_START_Y,
        w: PADDLE_WIDTH,
        h: PADDLE_HEIGHT,
        vel: None,
    }
}

/// The ball as spawned on entering play: at the field center, moving up
/// and to the right at the start speed.
pub open spec fn ball_entity(id: u64) -> Entity {
    Entity {
        id,
        role: Role::Ball,
        x: 0,
        y: 0,
        w: BALL_SIZE,
        h: BALL_SIZE,
        vel: Some(Velocity { vx: BALL_START_SPEED, vy: BALL_START_SPEED }),
    }
}

/// Center x of the block in column `col`: columns fill the field from the
/// right edge, one cell each, after `GRID_GAP` cells of padding.
pub open spec fn block_x(col: int) -> int {
    FIELD_HALF_WIDTH - (col + GRID_GAP) * BLOCK_CELL_WIDTH - (BLOCK_CELL_WIDTH as int) / 2
}

/// Center y of the block in row `row`: rows descend from just below the
/// top edge, one row height each, after `GRID_GAP` rows of padding.
pub open spec fn block_y(row: int) -> int {
    FIELD_HALF_HEIGHT - BLOCK_TOP_OFFSET - (row + GRID_GAP) * BLOCK_ROW_HEIGHT
}

/// The `k`-th block of the grid in spawn order (row-major), carrying the
/// `k`-th identifier.
pub open spec fn block_entity(id: u64, k: int) -> Entity {
    Entity {
        id,
        role: Role::Block,
        x: block_x(k % (GRID_COLS as int)) as i64,
        y: block_y(k / (GRID_COLS as int)) as i64,
        w: BLOCK_WIDTH,
        h: BLOCK_HEIGHT,
        vel: None,
    }
}

/// The whole block grid in spawn order, with identifiers starting at
/// `first_id`.
pub open spec fn grid_entities(first_id: int) -> Seq<Entity> {
    Seq::new(GRID_BLOCKS as nat, |k: int| block_entity((first_id + k) as u64, k))
}

/// What entering play does to a simulation: the score resets to zero and
/// the paddle, the ball, and the block grid are spawned, in that order.
pub open spec fn spec_enter_playing(m: SimModel) -> SimModel {
    SimModel {
        state: GameState::Playing,
        score: 0,
        entities: m.entities.push(paddle_entity(m.next_id as u64)).push(
            ball_entity((m.next_id + 1) as u64),
        ) + grid_entities(m.next_id + 2),
        next_id: m.next_id + 2 + GRID_BLOCKS,
    }
}

/// The tick relation.  In the menu, a start trigger enters play and
/// nothing else happens; the entering tick runs no gameplay systems.
/// While playing, the systems run in their fixed order: input moves the
/// paddle, movement advances the ball, then wall, paddle, and block
/// collisions respond.
pub open spec fn spec_tick(m: SimModel, dt: int, left: bool, right: bool, start: bool) -> SimModel {
    if m.state == GameState::MenuShown {
        if start {
            spec_enter_playing(m)
        } else {
            m
        }
    } else {
        let after_input = spec_player_movement(m.entities, dt, left, right);
        let after_move = spec_ball_movement(after_input, dt);
        let after_walls = spec_wall_collision(after_move);
        let after_paddle = spec_paddle_bounce(after_walls);
        let after_blocks = spec_block_collision(after_paddle, m.score);
        SimModel {
            state: m.state,
            score: after_blocks.1,
            entities: after_blocks.0,
            next_id: m.next_id,
        }
    }
}

/// The machine limits under which one tick is exactly the tick relation:
/// the elapsed time is a tick's worth, the score and identifier counters
/// have headroom, and the ball's integration and bounces stay in range.
pub open spec fn tick_fits(m: SimModel, dt: int) -> bool {
    &&& 0 <= dt <= MAX_TICK_MS
    &&& m.score < i32::MAX
    &&& m.next_id + 2 + GRID_BLOCKS <= u64::MAX
    &&& ball_fits(m.entities, dt)
    &&& ball_vel_negatable(m.entities)
}

impl Simulation {
    /// Well-formedness: the store is well-formed and the score is never
    /// negative.
    pub open spec fn wf(self) -> bool {
        &&& self.store.wf()
        &&& self.scoreboard.score >= 0
    }

    /// The mathematical snapshot of this simulation.
    pub open spec fn model(self) -> SimModel {
        SimModel {
            state: self.state,
            score: self.scoreboard.score as int,
            entities: self.store.entities@,
            next_id: self.store.next_id as int,
        }
    }

    /// A fresh simulation: menu up, score zero, no entities.
    pub fn new() -> (sim: Simulation)
        ensures
            sim.wf(),
            sim.state == GameState::MenuShown,
            sim.scoreboard.score == 0,
            sim.store.entities@ =~= Seq::<Entity>::empty(),
            sim.store.next_id == 0,
    {
        Simulation {
            state: GameState::MenuShown,
            scoreboard: Scoreboard { score: 0 },
            store: Store::new(),
        }
    }

    /// The score, as the display collaborator reads it.
    pub fn score(&self) -> (s: i32)
        ensures
            s == self.scoreboard.score,
    {
        self.scoreboard.score
    }

    /// Performs the `MenuShown` to `Playing` transition: resets the score
    /// and spawns the paddle, the ball, and the block grid.
    pub fn enter_playing(&mut self)
        requires
            old(self).wf(),
            old(self).state == GameState::MenuShown,
            old(self).store.next_id + 2 + GRID_BLOCKS <= u64::MAX,
        ensures
            final(self).wf(),
            final(self).state == GameState::Playing,
            final(self).model() == spec_enter_playing(old(self).model()),
    {
        self.state = GameState::Playing;
        self.scoreboard.score = 0;
        spawn_paddle(&mut self.store);
        spawn_ball(&mut self.store);
        spawn_blocks(&mut self.store);
    }

    /// One simulation tick for one frame of host input.
    pub fn tick(&mut self, input: &InputSnapshot)
        requires
            old(self).wf(),
            tick_fits(old(self).model(), input.elapsed_ms as int),
        ensures
            final(self).wf(),
            final(self).model() == spec_tick(
                old(self).model(),
                input.elapsed_ms as int,
                input.left_held,
                input.right_held,
                input.start_triggered,
            ),
    {
        if self.state == GameState::MenuShown {
            if input.start_triggered {
                self.enter_playing();
            }
        } else {
            let ghost dt = input.elapsed_ms as int;
            let ghost s0 = self.store.entities@;
            player_movement(
                &mut self.store,
                input.elapsed_ms,
                input.left_held,
                input.right_held,
            );
            proof {
                crate::systems::lemma_player_movement_preserves_ball(
                    s0,
                    dt,
                    input.left_held,
                    input.right_held,
                );
            }
            let ghost s1 = self.store.entities@;
            ball_movement(&mut self.store, input.elapsed_ms);
            proof {
                crate::systems::lemma_ball_movement_preserves_vel(s1, dt);
            }
            let ghost s2 = self.store.entities@;
            ball_bounds_collision(&mut self.store);
            proof {
                crate::systems::lemma_wall_collision_keeps_negatable(s2);
            }
            let ghost s3 = self.store.entities@;
            ball_player_collision(&mut self.store);
            proof {
                crate::systems::lemma_paddle_bounce_keeps_negatable(s3);
            }
            let mut sc: i32 = self.scoreboard.score;
            ball_blocks_collision(&mut self.store, &mut sc);
            self.scoreboard.score = sc;
        }
    }

    /// Guarded tick for hosts: runs `tick` when the machine limits of
    /// `tick_fits` hold of this frame and reports whether it did; a frame
    /// out of range leaves the simulation untouched.
    pub fn try_tick(&mut self, input: &InputSnapshot) -> (ok: bool)
        requires
            old(self).wf(),
        ensures
            final(self).wf(),
            ok == tick_fits(old(self).model(), input.elapsed_ms as int),
            ok ==> final(self).model() == spec_tick(
                old(self).model(),
                input.elapsed_ms as int,
                input.left_held,
                input.right_held,
                input.start_triggered,
            ),
            !ok ==> *final(self) == *old(self),
    {
        if self.check_tick_fits(input.elapsed_ms) {
            self.tick(input);
            true
        } else {
            false
        }
    }

    /// Executable test of the `tick_fits` machine limits.
    fn check_tick_fits(&self, dt_ms: i64) -> (ok: bool)
        ensures
            ok == tick_fits(self.model(), dt_ms as int),
    {
        if !(0 <= dt_ms && dt_ms <= MAX_TICK_MS) {
            return false;
        }
        if !(self.scoreboard.score < i32::MAX) {
            return false;
        }
        if !(self.store.next_id <= u64::MAX - 2 - (GRID_BLOCKS as u64)) {
            return false;
        }
        let idx = self.store.find_first(Role::Ball);
        match idx {
            Some(i) => {
                let e = self.store.entities[i];
                match e.vel {
                    Some(v) => {
                        proof {
                            assert(-(0x8000_0000_0000_0000int * MAX_TICK_MS) <= (v.vx as int) * (
                            dt_ms as int) <= 0x8000_0000_0000_0000int * MAX_TICK_MS)
                                by (nonlinear_arith)
                                requires
                                    -0x8000_0000_0000_0000 <= v.vx < 0x8000_0000_0000_0000,
                                    0 <= dt_ms <= MAX_TICK_MS,
                            ;
                            assert(-(0x8000_0000_0000_0000int * MAX_TICK_MS) <= (v.vy as int) * (
                            dt_ms as int) <= 0x8000_0000_0000_0000int * MAX_TICK_MS)
                                by (nonlinear_arith)
                                requires
                                    -0x8000_0000_0000_0000 <= v.vy < 0x8000_0000_0000_0000,
                                    0 <= dt_ms <= MAX_TICK_MS,
                            ;
                        }
                        let nx: i128 = (e.x as i128) + (v.vx as i128) * (dt_ms as i128);
                        let ny: i128 = (e.y as i128) + (v.vy as i128) * (dt_ms as i128);
                        (i64::MIN as i128) <= nx && nx <= (i64::MAX as i128) && (i64::MIN as i128)
                            <= ny && ny <= (i64::MAX as i128) && v.vx > i64::MIN && v.vy > i64::MIN
                    },
                    None => true,
                }
            },
            None => true,
        }
    }
}

/// Spawns the paddle at its fixed start position.
pub fn spawn_paddle(store: &mut Store) -> (id: u64)
    requires
        old(store).wf(),
        old(store).next_id < u64::MAX,
    ensures
        final(store).wf(),
        id == old(store).next_id,
        final(store).next_id == old(store).next_id + 1,
        final(store).entities@ == old(store).entities@.push(paddle_entity(id)),
{
    store.spawn(Role::Paddle, 0, PADDLE_START_Y, PADDLE_WIDTH, PADDLE_HEIGHT, None)
}

/// Spawns the ball at the field center with its fixed start velocity.
pub fn spawn_ball(store: &mut Store) -> (id: u64)
    requires
        old(store).wf(),
        old(store).next_id < u64::MAX,
    ensures
        final(store).wf(),
        id == old(store).next_id,
        final(store).next_id == old(store).next_id + 1,
        final(store).entities@ == old(store).entities@.push(ball_entity(id)),
{
    store.spawn(
        Role::Ball,
        0,
        0,
        BALL_SIZE,
        BALL_SIZE,
        Some(Velocity { vx: BALL_START_SPEED, vy: BALL_START_SPEED }),
    )
}

/// Spawns the whole block grid in row-major spawn order.
pub fn spawn_blocks(store: &mut Store)
    requires
        old(store).wf(),
        old(store).next_id + GRID_BLOCKS <= u64::MAX,
    ensures
        final(store).wf(),
        final(store).next_id == old(store).next_id + GRID_BLOCKS,
        final(store).entities@ == old(store).entities@ + grid_entities(
            old(store).next_id as int,
        ),
{
    let ghost first = old(store).next_id as int;
    let ghost base = old(store).entities@;
    let mut k: usize = 0;
    while k < GRID_BLOCKS
        invariant
            store.wf(),
            0 <= k <= GRID_BLOCKS,
            store.next_id == first + k,
            first + GRID_BLOCKS <= u64::MAX,
            store.entities@ == base + grid_entities(first).take(k as int),
        decreases GRID_BLOCKS - k,
    {
        let row: usize = k / GRID_COLS;
        let col: usize = k % GRID_COLS;
        proof {
            vstd::arithmetic::div_mod::lemma_fundamental_div_mod(k as int, GRID_COLS as int);
            vstd::arithmetic::div_mod::lemma_mod_bound(k as int, GRID_COLS as int);
        }
        let x: i64 = FIELD_HALF_WIDTH - ((col as i64) + GRID_GAP) * BLOCK_CELL_WIDTH
            - BLOCK_CELL_WIDTH / 2;
        let y: i64 = FIELD_HALF_HEIGHT - BLOCK_TOP_OFFSET - ((row as i64) + GRID_GAP)
            * BLOCK_ROW_HEIGHT;
        let ghost pre = store.entities@;
        store.spawn(Role::Block, x, y, BLOCK_WIDTH, BLOCK_HEIGHT, None);
        proof {
            assert(store.entities@.last() == block_entity((first + k) as u64, k as int));
            assert(grid_entities(first).take(k + 1) =~= grid_entities(first).take(k as int).push(
                block_entity((first + k) as u64, k as int),
            ));
            assert(store.entities@ =~= base + grid_entities(first).take(k + 1));
        }
        k = k + 1;
    }
    proof {
        assert(grid_entities(first).take(GRID_BLOCKS as int) =~= grid_entities(first));
    }
}

} // verus!
