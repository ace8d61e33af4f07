use vstd::prelude::*;
use crate::config::{MAX_TICK_MS, PADDLE_BOUND_X, PADDLE_SPEED, WALL_X, WALL_Y};
use crate::geom::{spec_overlaps, spec_resolve_axis, overlaps, resolve_direction, Axis};
use crate::store::{
    first_role, lemma_first_role_from_found, lemma_first_role_from_update_same_role,
    lemma_remove_keeps_wf, lemma_update_keeps_wf, Entity, Role, Store, Velocity,
};

verus! {

/// `v` clamped into `[lo, hi]`.
pub open spec fn clamp_i(v: int, lo: int, hi: int) -> int {
    if v < lo {
        lo
    } else if v > hi {
        hi
    } else {
        v
    }
}

/// Signed paddle displacement for one tick: left and right each move the
/// paddle `PADDLE_SPEED * dt` milli-units, and holding both (or neither)
/// cancels to zero.
pub open spec fn paddle_displacement(dt: int, left: bool, right: bool) -> int {
    if left && !right {
        -(PADDLE_SPEED * dt)
    } else if right && !left {
        PADDLE_SPEED * dt
    } else {
        0
    }
}

/// The paddle entity after one input tick: displaced by the held keys and
/// clamped into `[-PADDLE_BOUND_X, PADDLE_BOUND_X]`.
pub open spec fn moved_paddle(e: Entity, dt: int, left: bool, right: bool) -> Entity {
    Entity {
        id: e.id,
        role: e.role,
        x: clamp_i(
            e.x + paddle_displacement(dt, left, right),
            -PADDLE_BOUND_X as int,
            PADDLE_BOUND_X as int,
        ) as i64,
        y: e.y,
        w: e.w,
        h: e.h,
        vel: e.vel,
    }
}

/// The store after the input-to-paddle system: the first paddle moves as
/// `moved_paddle` says; every other entity is untouched; a store without
/// a paddle is unchanged.
pub open spec fn spec_player_movement(s: Seq<Entity>, dt: int, left: bool, right: bool) -> Seq<
    Entity,
> {
    match first_role(s, Role::Paddle) {
        Some(i) => s.update(i, moved_paddle(s[i], dt, left, right)),
        None => s,
    }
}

/// True when integrating the ball for `dt` milliseconds stays within the
/// fixed-point range; purely a machine limit.
pub open spec fn ball_fits(s: Seq<Entity>, dt: int) -> bool {
    match first_role(s, Role::Ball) {
        Some(i) => match s[i].vel {
            Some(v) => {
                &&& i64::MIN <= s[i].x + v.vx * dt <= i64::MAX
                &&& i64::MIN <= s[i].y + v.vy * dt <= i64::MAX
            },
            None => true,
        },
        None => true,
    }
}

/// True when the ball's velocity components can be negated without
/// leaving the fixed-point range; purely a machine limit.
pub open spec fn ball_vel_negatable(s: Seq<Entity>) -> bool {
    match first_role(s, Role::Ball) {
        Some(i) => match s[i].vel {
            Some(v) => v.vx > i64::MIN && v.vy > i64::MIN,
            None => true,
        },
        None => true,
    }
}

/// The store after the movement system: the first ball advances by
/// `velocity * dt`; everything else is untouched; a store without a ball,
/// or with a ball that carries no velocity, is unchanged.
pub open spec fn spec_ball_movement(s: Seq<Entity>, dt: int) -> Seq<Entity> {
    match first_role(s, Role::Ball) {
        Some(i) => match s[i].vel {
            Some(v) => s.update(
                i,
                Entity {
                    id: s[i].id,
                    role: s[i].role,
                    x: (s[i].x + v.vx * dt) as i64,
                    y: (s[i].y + v.vy * dt) as i64,
                    w: s[i].w,
                    h: s[i].h,
                    vel: s[i].vel,
                },
            ),
            None => s,
        },
        None => s,
    }
}

/// True when the entity's center lies beyond the vertical walls.
pub open spec fn beyond_wall_x(e: Entity) -> bool {
    e.x > WALL_X || e.x < -WALL_X
}

/// True when the entity's center lies beyond the horizontal walls.
pub open spec fn beyond_wall_y(e: Entity) -> bool {
    e.y > WALL_Y || e.y < -WALL_Y
}

/// The store after the wall system: each axis is checked independently,
/// and the matching velocity component flips sign exactly when the ball's
/// center is beyond that axis's wall.
pub open spec fn spec_wall_collision(s: Seq<Entity>) -> Seq<Entity> {
    match first_role(s, Role::Ball) {
        Some(i) => match s[i].vel {
            Some(v) => s.update(
                i,
                Entity {
                    id: s[i].id,
                    role: s[i].role,
                    x: s[i].x,
                    y: s[i].y,
                    w: s[i].w,
                    h: s[i].h,
                    vel: Some(
                        Velocity {
                            vx: if beyond_wall_x(s[i]) {
                                (-(v.vx as int)) as i64
                            } else {
                                v.vx
                            },
                            vy: if beyond_wall_y(s[i]) {
                                (-(v.vy as int)) as i64
                            } else {
                                v.vy
                            },
                        },
                    ),
                },
            ),
            None => s,
        },
        None => s,
    }
}

/// The store after the paddle-bounce system: a ball moving downward
/// (`vy < 0`) that overlaps the paddle has its y velocity flipped; a ball
/// moving upward or clear of the paddle is untouched.  Paddle bounces are
/// always vertical.
pub open spec fn spec_paddle_bounce(s: Seq<Entity>) -> Seq<Entity> {
    match first_role(s, Role::Ball) {
        Some(i) => match s[i].vel {
            Some(v) => match first_role(s, Role::Paddle) {
                Some(p) => if v.vy < 0 && spec_overlaps(s[i].spec_rect(), s[p].spec_rect()) {
                    s.update(
                        i,
                        Entity {
                            id: s[i].id,
                            role: s[i].role,
                            x: s[i].x,
                            y: s[i].y,
                            w: s[i].w,
                            h: s[i].h,
                            vel: Some(Velocity { vx: v.vx, vy: (-(v.vy as int)) as i64 }),
                        },
                    )
                } else {
                    s
                },
                None => s,
            },
            None => s,
        },
        None => s,
    }
}

/// First position at or after `i` holding a block that overlaps `ball`.
pub open spec fn first_block_hit_from(s: Seq<Entity>, ball: crate::geom::Rect, i: int) -> Option<
    int,
>
    decreases s.len() - i,
{
    if i < 0 || i >= s.len() {
        None
    } else if s[i].role == Role::Block && spec_overlaps(ball, s[i].spec_rect()) {
        Some(i)
    } else {
        first_block_hit_from(s, ball, i + 1)
    }
}

/// First block in store order that overlaps `ball`, if any.
pub open spec fn first_block_hit(s: Seq<Entity>, ball: crate::geom::Rect) -> Option<int> {
    first_block_hit_from(s, ball, 0)
}

/// What a `first_block_hit_from` result means: a hit is the earliest
/// overlapping block at or after `i`; a miss means no block from there on
/// overlaps the ball.
pub proof fn lemma_first_block_hit_from_found(s: Seq<Entity>, ball: crate::geom::Rect, i: int)
    requires
        0 <= i,
    ensures
        (match first_block_hit_from(s, ball, i) {
            Some(j) => i <= j < s.len() && s[j].role == Role::Block && spec_overlaps(
                ball,
                s[j].spec_rect(),
            ) && (forall|k: int|
                i <= k < j ==> !(#[trigger] s[k].role == Role::Block && spec_overlaps(
                    ball,
                    s[k].spec_rect(),
                ))),
            None => forall|k: int|
                i <= k < s.len() ==> !(#[trigger] s[k].role == Role::Block && spec_overlaps(
                    ball,
                    s[k].spec_rect(),
                )),
        }),
    decreases s.len() - i,
{
    if i >= s.len() {
    } else if s[i].role == Role::Block && spec_overlaps(ball, s[i].spec_rect()) {
    } else {
        lemma_first_block_hit_from_found(s, ball, i + 1);
    }
}

/// The ball entity with one velocity component flipped, chosen by `axis`.
pub open spec fn bounced_ball(e: Entity, v: Velocity, axis: Axis) -> Entity {
    Entity {
        id: e.id,
        role: e.role,
        x: e.x,
        y: e.y,
        w: e.w,
        h: e.h,
        vel: Some(
            match axis {
                Axis::X => Velocity { vx: (-(v.vx as int)) as i64, vy: v.vy },
                Axis::Y => Velocity { vx: v.vx, vy: (-(v.vy as int)) as i64 },
            },
        ),
    }
}

/// The store and score after the block system: the first block that
/// overlaps the ball is destroyed, the score rises by one, and the ball
/// bounces on the axis the hit-side classifier picks; at most one block
/// goes per tick, and with no overlapping block nothing changes.
pub open spec fn spec_block_collision(s: Seq<Entity>, score: int) -> (Seq<Entity>, int) {
    match first_role(s, Role::Ball) {
        Some(i) => match s[i].vel {
            Some(v) => match first_block_hit(s, s[i].spec_rect()) {
                Some(j) => {
                    let axis = spec_resolve_axis(s[i].spec_rect(), s[j].spec_rect());
                    (s.update(i, bounced_ball(s[i], v, axis)).remove(j), score + 1)
                },
                None => (s, score),
            },
            None => (s, score),
        },
        None => (s, score),
    }
}

/// Moving the paddle touches no ball: the ball's index and entity are the
/// same before and after, so the ball's machine limits carry over.
pub proof fn lemma_player_movement_preserves_ball(s: Seq<Entity>, dt: int, left: bool, right: bool)
    ensures
        first_role(spec_player_movement(s, dt, left, right), Role::Ball) == first_role(
            s,
            Role::Ball,
        ),
        (match first_role(s, Role::Ball) {
            Some(b) => spec_player_movement(s, dt, left, right)[b] == s[b],
            None => true,
        }),
        ball_fits(spec_player_movement(s, dt, left, right), dt) == ball_fits(s, dt),
        ball_vel_negatable(spec_player_movement(s, dt, left, right)) == ball_vel_negatable(s),
{
    let t = spec_player_movement(s, dt, left, right);
    match first_role(s, Role::Paddle) {
        Some(i) => {
            lemma_first_role_from_found(s, Role::Paddle, 0);
            let e2 = moved_paddle(s[i], dt, left, right);
            lemma_first_role_from_update_same_role(s, i, e2, Role::Ball, 0);
            match first_role(s, Role::Ball) {
                Some(b) => {
                    lemma_first_role_from_found(s, Role::Ball, 0);
                    assert(t[b] == s[b]);
                },
                None => {},
            }
        },
        None => {},
    }
}

/// Integrating the ball's position changes no velocity: negatability of
/// the ball's velocity carries over.
pub proof fn lemma_ball_movement_preserves_vel(s: Seq<Entity>, dt: int)
    ensures
        first_role(spec_ball_movement(s, dt), Role::Ball) == first_role(s, Role::Ball),
        ball_vel_negatable(spec_ball_movement(s, dt)) == ball_vel_negatable(s),
{
    let t = spec_ball_movement(s, dt);
    match first_role(s, Role::Ball) {
        Some(i) => {
            lemma_first_role_from_found(s, Role::Ball, 0);
            match s[i].vel {
                Some(v) => {
                    let e2 = Entity {
                        id: s[i].id,
                        role: s[i].role,
                        x: (s[i].x + v.vx * dt) as i64,
                        y: (s[i].y + v.vy * dt) as i64,
                        w: s[i].w,
                        h: s[i].h,
                        vel: s[i].vel,
                    };
                    lemma_first_role_from_update_same_role(s, i, e2, Role::Ball, 0);
                    assert(t[i].vel == s[i].vel);
                },
                None => {},
            }
        },
        None => {},
    }
}

/// A wall bounce negates a negatable component, which stays negatable.
pub proof fn lemma_wall_collision_keeps_negatable(s: Seq<Entity>)
    requires
        ball_vel_negatable(s),
    ensures
        first_role(spec_wall_collision(s), Role::Ball) == first_role(s, Role::Ball),
        ball_vel_negatable(spec_wall_collision(s)),
{
    let t = spec_wall_collision(s);
    match first_role(s, Role::Ball) {
        Some(i) => {
            lemma_first_role_from_found(s, Role::Ball, 0);
            match s[i].vel {
                Some(v) => {
                    lemma_first_role_from_update_same_role(s, i, t[i], Role::Ball, 0);
                },
                None => {},
            }
        },
        None => {},
    }
}

/// A paddle bounce negates a negatable component, which stays negatable.
pub proof fn lemma_paddle_bounce_keeps_negatable(s: Seq<Entity>)
    requires
        ball_vel_negatable(s),
    ensures
        first_role(spec_paddle_bounce(s), Role::Ball) == first_role(s, Role::Ball),
        ball_vel_negatable(spec_paddle_bounce(s)),
{
    let t = spec_paddle_bounce(s);
    match first_role(s, Role::Ball) {
        Some(i) => {
            lemma_first_role_from_found(s, Role::Ball, 0);
            match s[i].vel {
                Some(v) => match first_role(s, Role::Paddle) {
                    Some(p) => {
                        if v.vy < 0 && spec_overlaps(s[i].spec_rect(), s[p].spec_rect()) {
                            lemma_first_role_from_update_same_role(s, i, t[i], Role::Ball, 0);
                        }
                    },
                    None => {},
                },
                None => {},
            }
        },
        None => {},
    }
}

/// Input-to-paddle system: displaces the paddle by the held keys and the
/// elapsed time, then clamps it into the play field.
pub fn player_movement(store: &mut Store, dt_ms: i64, left_held: bool, right_held: bool)
    requires
        old(store).wf(),
        0 <= dt_ms <= MAX_TICK_MS,
    ensures
        final(store).wf(),
        final(store).next_id == old(store).next_id,
        final(store).entities@ == spec_player_movement(
            old(store).entities@,
            dt_ms as int,
            left_held,
            right_held,
        ),
{
    let idx = store.find_first(Role::Paddle);
    match idx {
        Some(i) => {
            let e = store.entities[i];
            let disp: i64 = if left_held && !right_held {
                -(PADDLE_SPEED * dt_ms)
            } else if right_held && !left_held {
                PADDLE_SPEED * dt_ms
            } else {
                0
            };
            let raw: i128 = (e.x as i128) + (disp as i128);
            let nx: i64 = if raw < -(PADDLE_BOUND_X as i128) {
                -PADDLE_BOUND_X
            } else if raw > (PADDLE_BOUND_X as i128) {
                PADDLE_BOUND_X
            } else {
                raw as i64
            };
            let e2 = Entity { id: e.id, role: e.role, x: nx, y: e.y, w: e.w, h: e.h, vel: e.vel };
            proof {
                assert(e2 == moved_paddle(e, dt_ms as int, left_held, right_held));
                lemma_update_keeps_wf(*store, i as int, e2);
            }
            store.entities.set(i, e2);
        },
        None => {},
    }
}

/// Movement system: integrates the ball's velocity into its position,
/// once per tick, with no clamping.
pub fn ball_movement(store: &mut Store, dt_ms: i64)
    requires
        old(store).wf(),
        0 <= dt_ms <= MAX_TICK_MS,
        ball_fits(old(store).entities@, dt_ms as int),
    ensures
        final(store).wf(),
        final(store).next_id == old(store).next_id,
        final(store).entities@ == spec_ball_movement(old(store).entities@, dt_ms as int),
{
    let idx = store.find_first(Role::Ball);
    match idx {
        Some(i) => {
            let e = store.entities[i];
            match e.vel {
                Some(v) => {
                    let nx128: i128 = (e.x as i128) + (v.vx as i128) * (dt_ms as i128);
                    let ny128: i128 = (e.y as i128) + (v.vy as i128) * (dt_ms as i128);
                    let nx: i64 = nx128 as i64;
                    let ny: i64 = ny128 as i64;
                    let e2 = Entity {
                        id: e.id,
                        role: e.role,
                        x: nx,
                        y: ny,
                        w: e.w,
                        h: e.h,
                        vel: e.vel,
                    };
                    proof {
                        lemma_update_keeps_wf(*store, i as int, e2);
                    }
                    store.entities.set(i, e2);
                },
                None => {},
            }
        },
        None => {},
    }
}

/// Wall system: flips the x velocity when the ball is beyond a vertical
/// wall and the y velocity when beyond a horizontal one; a corner hit
/// flips both in the same tick.
pub fn ball_bounds_collision(store: &mut Store)
    requires
        old(store).wf(),
        ball_vel_negatable(old(store).entities@),
    ensures
        final(store).wf(),
        final(store).next_id == old(store).next_id,
        final(store).entities@ == spec_wall_collision(old(store).entities@),
{
    let idx = store.find_first(Role::Ball);
    match idx {
        Some(i) => {
            let e = store.entities[i];
            match e.vel {
                Some(v) => {
                    let nvx: i64 = if e.x > WALL_X || e.x < -WALL_X {
                        -v.vx
                    } else {
                        v.vx
                    };
                    let nvy: i64 = if e.y > WALL_Y || e.y < -WALL_Y {
                        -v.vy
                    } else {
                        v.vy
                    };
                    let e2 = Entity {
                        id: e.id,
                        role: e.role,
                        x: e.x,
                        y: e.y,
                        w: e.w,
                        h: e.h,
                        vel: Some(Velocity { vx: nvx, vy: nvy }),
                    };
                    proof {
                        lemma_update_keeps_wf(*store, i as int, e2);
                    }
                    store.entities.set(i, e2);
                },
                None => {},
            }
        },
        None => {},
    }
}

/// Paddle-bounce system: a ball moving downward that overlaps the paddle
/// has its y velocity flipped; a ball moving upward never re-triggers a
/// bounce, which prevents double-bounce jitter.
pub fn ball_player_collision(store: &mut Store)
    requires
        old(store).wf(),
        ball_vel_negatable(old(store).entities@),
    ensures
        final(store).wf(),
        final(store).next_id == old(store).next_id,
        final(store).entities@ == spec_paddle_bounce(old(store).entities@),
{
    let bi = store.find_first(Role::Ball);
    match bi {
        Some(i) => {
            let e = store.entities[i];
            match e.vel {
                Some(v) => {
                    let pi = store.find_first(Role::Paddle);
                    match pi {
                        Some(p) => {
                            let pe = store.entities[p];
                            if v.vy < 0 && overlaps(&e.rect(), &pe.rect()) {
                                let e2 = Entity {
                                    id: e.id,
                                    role: e.role,
                                    x: e.x,
                                    y: e.y,
                                    w: e.w,
                                    h: e.h,
                                    vel: Some(Velocity { vx: v.vx, vy: -v.vy }),
                                };
                                proof {
                                    lemma_update_keeps_wf(*store, i as int, e2);
                                }
                                store.entities.set(i, e2);
                            }
                        },
                        None => {},
                    }
                },
                None => {},
            }
        },
        None => {},
    }
}

/// Block system: scans the blocks in store order; the first one that
/// overlaps the ball is despawned, the score rises by one, and the ball
/// bounces on the classifier's axis.  The scan then stops, so at most one
/// block is destroyed per tick.
pub fn ball_blocks_collision(store: &mut Store, score: &mut i32)
    requires
        old(store).wf(),
        ball_vel_negatable(old(store).entities@),
        *old(score) < i32::MAX,
    ensures
        final(store).wf(),
        final(store).next_id == old(store).next_id,
        final(store).entities@ == spec_block_collision(
            old(store).entities@,
            *old(score) as int,
        ).0,
        *final(score) as int == spec_block_collision(old(store).entities@, *old(score) as int).1,
        *final(score) >= *old(score),
{
    let ghost s = old(store).entities@;
    let bi = store.find_first(Role::Ball);
    match bi {
        Some(i) => {
            let e = store.entities[i];
            match e.vel {
                Some(v) => {
                    let brect = e.rect();
                    let mut j: usize = 0;
                    while j < store.entities.len()
                        invariant
                            store == old(store),
                            score == old(score),
                            store.wf(),
                            *score < i32::MAX,
                            s == store.entities@,
                            0 <= i < s.len(),
                            first_role(s, Role::Ball) == Some(i as int),
                            s[i as int] == e,
                            e.vel == Some(v),
                            v.vx > i64::MIN,
                            v.vy > i64::MIN,
                            brect == e.spec_rect(),
                            0 <= j <= s.len(),
                            first_block_hit(s, brect) == first_block_hit_from(s, brect, j as int),
                        decreases s.len() - j,
                    {
                        let be = store.entities[j];
                        let hit = if be.role == Role::Block {
                            overlaps(&brect, &be.rect())
                        } else {
                            false
                        };
                        if hit {
                            proof {
                                assert(first_block_hit_from(s, brect, j as int) == Some(j as int));
                            }
                            *score = *score + 1;
                            let axis = resolve_direction(&brect, &be.rect());
                            let e2 = match axis {
                                Axis::X => Entity {
                                    id: e.id,
                                    role: e.role,
                                    x: e.x,
                                    y: e.y,
                                    w: e.w,
                                    h: e.h,
                                    vel: Some(Velocity { vx: -v.vx, vy: v.vy }),
                                },
                                Axis::Y => Entity {
                                    id: e.id,
                                    role: e.role,
                                    x: e.x,
                                    y: e.y,
                                    w: e.w,
                                    h: e.h,
                                    vel: Some(Velocity { vx: v.vx, vy: -v.vy }),
                                },
                            };
                            proof {
                                assert(e2 == bounced_ball(e, v, spec_resolve_axis(brect, s[j as int].spec_rect())));
                                lemma_update_keeps_wf(*store, i as int, e2);
                            }
                            store.entities.set(i, e2);
                            proof {
                                lemma_remove_keeps_wf(*store, j as int);
                            }
                            store.entities.remove(j);
                            return ;
                        }
                        proof {
                            assert(first_block_hit_from(s, brect, j as int)
                                == first_block_hit_from(s, brect, j + 1));
                        }
                        j = j + 1;
                    }
                    proof {
                        assert(first_block_hit_from(s, brect, s.len() as int) == None::<int>);
                    }
                },
                None => {},
            }
        },
        None => {},
    }
}

} // verus!
