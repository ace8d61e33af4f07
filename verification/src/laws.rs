//! The library's laws: facts that hold of the systems and the tick
//! relation for every input, stated over the same spec functions the
//! systems' contracts use, and proved once and for all.

use vstd::prelude::*;
use crate::config::{GRID_BLOCKS, PADDLE_BOUND_X, WALL_X, WALL_Y};
use crate::game::{spec_tick, GameState, SimModel};
use crate::store::{
    first_role, lemma_first_role_from_found, lemma_role_count_all_same, lemma_role_count_concat,
    lemma_role_count_none, lemma_role_count_push, lemma_role_count_remove,
    lemma_role_count_update_same_role, role_count, Entity, Role, Velocity,
};
use crate::systems::{
    clamp_i, first_block_hit, lemma_first_block_hit_from_found, moved_paddle, spec_ball_movement,
    spec_block_collision, spec_paddle_bounce, spec_player_movement, spec_wall_collision,
};

verus! {

/// A ball strictly inside the field bounds minus the margin is left alone
/// by the wall system: its velocity, and the whole store, are unchanged.
pub proof fn lemma_wall_inside_keeps_velocity(s: Seq<Entity>, i: int, v: Velocity)
    requires
        first_role(s, Role::Ball) == Some(i),
        0 <= i < s.len(),
        s[i].vel == Some(v),
        -WALL_X <= s[i].x <= WALL_X,
        -WALL_Y <= s[i].y <= WALL_Y,
    ensures
        spec_wall_collision(s) == s,
{
    assert(spec_wall_collision(s) =~= s.update(i, s[i]));
    assert(s.update(i, s[i]) =~= s);
}

/// A ball beyond a vertical wall has exactly its x velocity sign flipped:
/// the y component is untouched as long as the ball is within the
/// horizontal walls, positions do not move, and no other entity changes.
pub proof fn lemma_wall_beyond_x_flips_exactly_x(s: Seq<Entity>, i: int, v: Velocity)
    requires
        first_role(s, Role::Ball) == Some(i),
        0 <= i < s.len(),
        s[i].vel == Some(v),
        v.vx > i64::MIN,
        s[i].x > WALL_X || s[i].x < -WALL_X,
    ensures
        spec_wall_collision(s).len() == s.len(),
        forall|j: int| 0 <= j < s.len() && j != i ==> spec_wall_collision(s)[j] == s[j],
        spec_wall_collision(s)[i].x == s[i].x,
        spec_wall_collision(s)[i].y == s[i].y,
        spec_wall_collision(s)[i].vel is Some,
        spec_wall_collision(s)[i].vel.unwrap().vx as int == -(v.vx as int),
        -WALL_Y <= s[i].y <= WALL_Y ==> spec_wall_collision(s)[i].vel.unwrap().vy == v.vy,
{
}

/// A ball beyond a horizontal wall has exactly its y velocity sign
/// flipped: the x component is untouched as long as the ball is within
/// the vertical walls, positions do not move, and no other entity
/// changes.
pub proof fn lemma_wall_beyond_y_flips_exactly_y(s: Seq<Entity>, i: int, v: Velocity)
    requires
        first_role(s, Role::Ball) == Some(i),
        0 <= i < s.len(),
        s[i].vel == Some(v),
        v.vy > i64::MIN,
        s[i].y > WALL_Y || s[i].y < -WALL_Y,
    ensures
        spec_wall_collision(s).len() == s.len(),
        forall|j: int| 0 <= j < s.len() && j != i ==> spec_wall_collision(s)[j] == s[j],
        spec_wall_collision(s)[i].x == s[i].x,
        spec_wall_collision(s)[i].y == s[i].y,
        spec_wall_collision(s)[i].vel is Some,
        spec_wall_collision(s)[i].vel.unwrap().vy as int == -(v.vy as int),
        -WALL_X <= s[i].x <= WALL_X ==> spec_wall_collision(s)[i].vel.unwrap().vx == v.vx,
{
}

/// After the input system the paddle always lies within
/// `[-PADDLE_BOUND_X, PADDLE_BOUND_X]`, however far the raw displacement
/// would have pushed it.
pub proof fn lemma_player_movement_stays_in_bounds(
    s: Seq<Entity>,
    dt: int,
    left: bool,
    right: bool,
    i: int,
)
    requires
        first_role(s, Role::Paddle) == Some(i),
        0 <= i < s.len(),
    ensures
        -PADDLE_BOUND_X <= spec_player_movement(s, dt, left, right)[i].x <= PADDLE_BOUND_X,
{
    assert(spec_player_movement(s, dt, left, right)[i] == moved_paddle(s[i], dt, left, right));
}

/// Clamping is idempotent: clamping an already-clamped value is a no-op.
pub proof fn lemma_clamp_idempotent(v: int, lo: int, hi: int)
    requires
        lo <= hi,
    ensures
        clamp_i(clamp_i(v, lo, hi), lo, hi) == clamp_i(v, lo, hi),
{
}

/// Opposite simultaneous key holds cancel: with both directions held the
/// input system leaves a paddle that is within bounds exactly where it
/// was, and the store unchanged.
pub proof fn lemma_opposite_keys_cancel(s: Seq<Entity>, dt: int, i: int)
    requires
        first_role(s, Role::Paddle) == Some(i),
        0 <= i < s.len(),
        -PADDLE_BOUND_X <= s[i].x <= PADDLE_BOUND_X,
    ensures
        spec_player_movement(s, dt, true, true) == s,
{
    assert(moved_paddle(s[i], dt, true, true) == s[i]);
    assert(s.update(i, s[i]) =~= s);
}

/// A ball moving upward never triggers a paddle bounce, even while it
/// geometrically overlaps the paddle rectangle.
pub proof fn lemma_upward_ball_never_paddle_bounces(s: Seq<Entity>, i: int, v: Velocity)
    requires
        first_role(s, Role::Ball) == Some(i),
        0 <= i < s.len(),
        s[i].vel == Some(v),
        v.vy > 0,
    ensures
        spec_paddle_bounce(s) == s,
{
}

/// One pass of the block system is conservative, monotonic and bounded:
/// the score rises by exactly the number of blocks destroyed, which is
/// zero or one.
pub proof fn lemma_block_collision_conserves(s: Seq<Entity>, score: int)
    ensures
        spec_block_collision(s, score).1 == score + (role_count(s, Role::Block) as int
            - role_count(spec_block_collision(s, score).0, Role::Block) as int),
        role_count(spec_block_collision(s, score).0, Role::Block) <= role_count(s, Role::Block),
        role_count(s, Role::Block) - role_count(spec_block_collision(s, score).0, Role::Block)
            <= 1,
        spec_block_collision(s, score).1 >= score,
{
    match first_role(s, Role::Ball) {
        Some(i) => {
            lemma_first_role_from_found(s, Role::Ball, 0);
            match s[i].vel {
                Some(v) => {
                    match first_block_hit(s, s[i].spec_rect()) {
                        Some(j) => {
                            lemma_first_block_hit_from_found(s, s[i].spec_rect(), 0);
                            let axis = crate::geom::spec_resolve_axis(
                                s[i].spec_rect(),
                                s[j].spec_rect(),
                            );
                            let b2 = crate::systems::bounced_ball(s[i], v, axis);
                            lemma_role_count_update_same_role(s, i, b2, Role::Block);
                            lemma_role_count_remove(s.update(i, b2), j, Role::Block);
                        },
                        None => {},
                    }
                },
                None => {},
            }
        },
        None => {},
    }
}

/// The paddle, movement, wall, and bounce systems only move entities or
/// flip velocities: they neither create nor destroy entities of any role.
pub proof fn lemma_systems_keep_role_count(
    s: Seq<Entity>,
    dt: int,
    left: bool,
    right: bool,
    role: Role,
)
    ensures
        role_count(spec_player_movement(s, dt, left, right), role) == role_count(s, role),
        role_count(spec_ball_movement(s, dt), role) == role_count(s, role),
        role_count(spec_wall_collision(s), role) == role_count(s, role),
        role_count(spec_paddle_bounce(s), role) == role_count(s, role),
{
    match first_role(s, Role::Paddle) {
        Some(i) => {
            lemma_first_role_from_found(s, Role::Paddle, 0);
            lemma_role_count_update_same_role(s, i, moved_paddle(s[i], dt, left, right), role);
        },
        None => {},
    }
    match first_role(s, Role::Ball) {
        Some(i) => {
            lemma_first_role_from_found(s, Role::Ball, 0);
            match s[i].vel {
                Some(v) => {
                    lemma_role_count_update_same_role(s, i, spec_ball_movement(s, dt)[i], role);
                    lemma_role_count_update_same_role(s, i, spec_wall_collision(s)[i], role);
                    match first_role(s, Role::Paddle) {
                        Some(p) => {
                            if v.vy < 0 && crate::geom::spec_overlaps(
                                s[i].spec_rect(),
                                s[p].spec_rect(),
                            ) {
                                lemma_role_count_update_same_role(
                                    s,
                                    i,
                                    spec_paddle_bounce(s)[i],
                                    role,
                                );
                            }
                        },
                        None => {},
                    }
                },
                None => {},
            }
        },
        None => {},
    }
}

/// The block system destroys only a block: entities of every other role
/// are exactly as many as before.
pub proof fn lemma_block_collision_keeps_other_roles(s: Seq<Entity>, score: int, role: Role)
    requires
        role != Role::Block,
    ensures
        role_count(spec_block_collision(s, score).0, role) == role_count(s, role),
{
    match first_role(s, Role::Ball) {
        Some(i) => {
            lemma_first_role_from_found(s, Role::Ball, 0);
            match s[i].vel {
                Some(v) => {
                    match first_block_hit(s, s[i].spec_rect()) {
                        Some(j) => {
                            lemma_first_block_hit_from_found(s, s[i].spec_rect(), 0);
                            let axis = crate::geom::spec_resolve_axis(
                                s[i].spec_rect(),
                                s[j].spec_rect(),
                            );
                            let b2 = crate::systems::bounced_ball(s[i], v, axis);
                            lemma_role_count_update_same_role(s, i, b2, role);
                            lemma_role_count_remove(s.update(i, b2), j, role);
                        },
                        None => {},
                    }
                },
                None => {},
            }
        },
        None => {},
    }
}

/// A playing tick never spawns or despawns a paddle or a ball: with the
/// spawn discipline of the state machine, at most one of each ever
/// exists during a session.
pub proof fn lemma_tick_keeps_paddle_and_ball(
    m: SimModel,
    dt: int,
    left: bool,
    right: bool,
    start: bool,
)
    requires
        m.state == GameState::Playing,
    ensures
        role_count(spec_tick(m, dt, left, right, start).entities, Role::Paddle) == role_count(
            m.entities,
            Role::Paddle,
        ),
        role_count(spec_tick(m, dt, left, right, start).entities, Role::Ball) == role_count(
            m.entities,
            Role::Ball,
        ),
{
    let s1 = spec_player_movement(m.entities, dt, left, right);
    let s2 = spec_ball_movement(s1, dt);
    let s3 = spec_wall_collision(s2);
    let s4 = spec_paddle_bounce(s3);
    lemma_systems_keep_role_count(m.entities, dt, left, right, Role::Paddle);
    lemma_systems_keep_role_count(s1, dt, left, right, Role::Paddle);
    lemma_systems_keep_role_count(s2, dt, left, right, Role::Paddle);
    lemma_systems_keep_role_count(s3, dt, left, right, Role::Paddle);
    lemma_block_collision_keeps_other_roles(s4, m.score, Role::Paddle);
    lemma_systems_keep_role_count(m.entities, dt, left, right, Role::Ball);
    lemma_systems_keep_role_count(s1, dt, left, right, Role::Ball);
    lemma_systems_keep_role_count(s2, dt, left, right, Role::Ball);
    lemma_systems_keep_role_count(s3, dt, left, right, Role::Ball);
    lemma_block_collision_keeps_other_roles(s4, m.score, Role::Ball);
}

/// Block destruction over a whole playing tick is monotonic and bounded:
/// the tick destroys at most one block, and the score rises by exactly
/// the number of blocks destroyed.  Summed over any run of ticks, the
/// remaining blocks are the starting blocks minus the ticks that detected
/// a block collision, and the score counts the blocks destroyed so far.
pub proof fn lemma_tick_block_conservation(
    m: SimModel,
    dt: int,
    left: bool,
    right: bool,
    start: bool,
)
    requires
        m.state == GameState::Playing,
    ensures
        spec_tick(m, dt, left, right, start).score == m.score + (role_count(
            m.entities,
            Role::Block,
        ) as int - role_count(spec_tick(m, dt, left, right, start).entities, Role::Block) as int),
        role_count(spec_tick(m, dt, left, right, start).entities, Role::Block) <= role_count(
            m.entities,
            Role::Block,
        ),
        role_count(m.entities, Role::Block) - role_count(
            spec_tick(m, dt, left, right, start).entities,
            Role::Block,
        ) <= 1,
        spec_tick(m, dt, left, right, start).score >= m.score,
{
    let s1 = spec_player_movement(m.entities, dt, left, right);
    let s2 = spec_ball_movement(s1, dt);
    let s3 = spec_wall_collision(s2);
    let s4 = spec_paddle_bounce(s3);
    lemma_systems_keep_role_count(m.entities, dt, left, right, Role::Block);
    lemma_systems_keep_role_count(s1, dt, left, right, Role::Block);
    lemma_systems_keep_role_count(s2, dt, left, right, Role::Block);
    lemma_systems_keep_role_count(s3, dt, left, right, Role::Block);
    lemma_block_collision_conserves(s4, m.score);
}

/// Entering play resets the score to zero and spawns exactly one paddle,
/// one ball, and `GRID_BLOCKS` (rows times columns) blocks on top of
/// whatever the store held.
pub proof fn lemma_enter_playing_counts(m: SimModel)
    ensures
        crate::game::spec_enter_playing(m).state == GameState::Playing,
        crate::game::spec_enter_playing(m).score == 0,
        role_count(crate::game::spec_enter_playing(m).entities, Role::Paddle) == role_count(
            m.entities,
            Role::Paddle,
        ) + 1,
        role_count(crate::game::spec_enter_playing(m).entities, Role::Ball) == role_count(
            m.entities,
            Role::Ball,
        ) + 1,
        role_count(crate::game::spec_enter_playing(m).entities, Role::Block) == role_count(
            m.entities,
            Role::Block,
        ) + GRID_BLOCKS,
{
    let paddle = crate::game::paddle_entity(m.next_id as u64);
    let ball = crate::game::ball_entity((m.next_id + 1) as u64);
    let with_paddle = m.entities.push(paddle);
    let with_ball = with_paddle.push(ball);
    let grid = crate::game::grid_entities(m.next_id + 2);
    assert(forall|k: int| 0 <= k < grid.len() ==> #[trigger] grid[k].role == Role::Block);
    lemma_role_count_push(m.entities, paddle, Role::Paddle);
    lemma_role_count_push(with_paddle, ball, Role::Paddle);
    lemma_role_count_concat(with_ball, grid, Role::Paddle);
    lemma_role_count_none(grid, Role::Paddle);
    lemma_role_count_push(m.entities, paddle, Role::Ball);
    lemma_role_count_push(with_paddle, ball, Role::Ball);
    lemma_role_count_concat(with_ball, grid, Role::Ball);
    lemma_role_count_none(grid, Role::Ball);
    lemma_role_count_push(m.entities, paddle, Role::Block);
    lemma_role_count_push(with_paddle, ball, Role::Block);
    lemma_role_count_concat(with_ball, grid, Role::Block);
    lemma_role_count_all_same(grid, Role::Block);
}

/// Ghost description of one frame of host input, for stating laws about
/// whole runs of ticks.
pub struct TickInput {
    pub dt: int,
    pub left: bool,
    pub right: bool,
    pub start: bool,
}

/// The simulation after a whole run of ticks, first frame first.
pub open spec fn spec_run(m: SimModel, frames: Seq<TickInput>) -> SimModel
    decreases frames.len(),
{
    if frames.len() == 0 {
        m
    } else {
        spec_run(
            spec_tick(m, frames[0].dt, frames[0].left, frames[0].right, frames[0].start),
            frames.drop_first(),
        )
    }
}

/// Block destruction over any run of playing ticks is monotonic and
/// bounded: starting from N blocks, after K ticks the remaining blocks
/// are N minus the number of ticks that detected a block collision (each
/// destroying exactly one block), that number is at most K, and the score
/// has risen by exactly the number of blocks destroyed.
pub proof fn lemma_run_block_conservation(m: SimModel, frames: Seq<TickInput>)
    requires
        m.state == GameState::Playing,
    ensures
        spec_run(m, frames).state == GameState::Playing,
        spec_run(m, frames).score == m.score + (role_count(m.entities, Role::Block) as int
            - role_count(spec_run(m, frames).entities, Role::Block) as int),
        role_count(spec_run(m, frames).entities, Role::Block) <= role_count(
            m.entities,
            Role::Block,
        ),
        role_count(m.entities, Role::Block) - role_count(spec_run(m, frames).entities, Role::Block)
            <= frames.len(),
        spec_run(m, frames).score >= m.score,
    decreases frames.len(),
{
    if frames.len() > 0 {
        let m1 = spec_tick(m, frames[0].dt, frames[0].left, frames[0].right, frames[0].start);
        lemma_tick_block_conservation(
            m,
            frames[0].dt,
            frames[0].left,
            frames[0].right,
            frames[0].start,
        );
        lemma_run_block_conservation(m1, frames.drop_first());
    }
}

/// `score + live blocks == GRID_BLOCKS` is a session invariant: entering
/// play from a menu without block entities establishes it, and every
/// playing tick preserves it.
pub proof fn lemma_tick_session_invariant(
    m: SimModel,
    dt: int,
    left: bool,
    right: bool,
    start: bool,
)
    requires
        m.state == GameState::MenuShown ==> role_count(m.entities, Role::Block) == 0,
        m.state == GameState::Playing ==> m.score + role_count(m.entities, Role::Block)
            == GRID_BLOCKS,
    ensures
        spec_tick(m, dt, left, right, start).state == GameState::Playing ==> spec_tick(
            m,
            dt,
            left,
            right,
            start,
        ).score + role_count(spec_tick(m, dt, left, right, start).entities, Role::Block)
            == GRID_BLOCKS,
{
    if m.state == GameState::MenuShown {
        if start {
            let with_paddle = m.entities.push(crate::game::paddle_entity(m.next_id as u64));
            let with_ball = with_paddle.push(crate::game::ball_entity((m.next_id + 1) as u64));
            let grid = crate::game::grid_entities(m.next_id + 2);
            lemma_role_count_push(m.entities, crate::game::paddle_entity(m.next_id as u64), Role::Block);
            lemma_role_count_push(
                with_paddle,
                crate::game::ball_entity((m.next_id + 1) as u64),
                Role::Block,
            );
            lemma_role_count_concat(with_ball, grid, Role::Block);
            assert(forall|k: int| 0 <= k < grid.len() ==> #[trigger] grid[k].role == Role::Block);
            lemma_role_count_all_same(grid, Role::Block);
        }
    } else {
        lemma_tick_block_conservation(m, dt, left, right, start);
    }
}

} // verus!
