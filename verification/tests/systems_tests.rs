use breakout_core::store::{Role, Store, Velocity};
use breakout_core::systems::{
    ball_blocks_collision, ball_bounds_collision, ball_movement, ball_player_collision,
    player_movement,
};

fn paddle_store(x: i64) -> Store {
    let mut st = Store::new();
    st.spawn(Role::Paddle, x, -295_000, 38_000, 10_000, None);
    st
}

fn ball_store(x: i64, y: i64, vx: i64, vy: i64) -> Store {
    let mut st = Store::new();
    st.spawn(Role::Ball, x, y, 10_000, 10_000, Some(Velocity { vx, vy }));
    st
}

#[test]
fn paddle_moves_left_with_left_held() {
    let mut st = paddle_store(0);
    // 190 units/s for 100 ms: 19 units, i.e. 19_000 milli-units.
    player_movement(&mut st, 100, true, false);
    assert_eq!(st.entities[0].x, -19_000);
}

#[test]
fn paddle_moves_right_with_right_held() {
    let mut st = paddle_store(0);
    player_movement(&mut st, 100, false, true);
    assert_eq!(st.entities[0].x, 19_000);
}

#[test]
fn opposite_keys_cancel_for_the_tick() {
    // Holding both directions for 100 ms leaves the paddle where it was.
    let mut st = paddle_store(12_345);
    player_movement(&mut st, 100, true, true);
    assert_eq!(st.entities[0].x, 12_345);
    // So does holding neither.
    player_movement(&mut st, 100, false, false);
    assert_eq!(st.entities[0].x, 12_345);
}

#[test]
fn paddle_is_clamped_into_the_field() {
    // One full second to the right from near the edge would reach
    // 360 units; the bound is 171 = 380/2 - 38/2.
    let mut st = paddle_store(170_000);
    player_movement(&mut st, 1000, false, true);
    assert_eq!(st.entities[0].x, 171_000);
    let mut st = paddle_store(-170_000);
    player_movement(&mut st, 1000, true, false);
    assert_eq!(st.entities[0].x, -171_000);
    // Clamping an already-clamped paddle is a no-op.
    let mut st = paddle_store(171_000);
    player_movement(&mut st, 0, false, false);
    assert_eq!(st.entities[0].x, 171_000);
}

#[test]
fn player_movement_without_paddle_is_a_no_op() {
    let mut st = ball_store(0, 0, 5, 5);
    player_movement(&mut st, 100, true, false);
    assert_eq!(st.entities[0].x, 0);
    assert_eq!(st.entities.len(), 1);
}

#[test]
fn ball_movement_integrates_velocity() {
    let mut st = ball_store(1_000, 2_000, 190, -50);
    ball_movement(&mut st, 100);
    assert_eq!(st.entities[0].x, 1_000 + 19_000);
    assert_eq!(st.entities[0].y, 2_000 - 5_000);
}

#[test]
fn wall_collision_inside_bounds_leaves_velocity() {
    // Strictly inside the field bounds minus margin: nothing flips.
    let mut st = ball_store(184_000, 314_000, 190, 190);
    ball_bounds_collision(&mut st);
    assert_eq!(st.entities[0].vel, Some(Velocity { vx: 190, vy: 190 }));
}

#[test]
fn wall_collision_beyond_x_flips_only_x() {
    let mut st = ball_store(186_000, 0, 190, 190);
    ball_bounds_collision(&mut st);
    assert_eq!(st.entities[0].vel, Some(Velocity { vx: -190, vy: 190 }));
    let mut st = ball_store(-186_000, 0, -190, 190);
    ball_bounds_collision(&mut st);
    assert_eq!(st.entities[0].vel, Some(Velocity { vx: 190, vy: 190 }));
}

#[test]
fn wall_collision_beyond_y_flips_only_y() {
    let mut st = ball_store(0, 316_000, 190, 190);
    ball_bounds_collision(&mut st);
    assert_eq!(st.entities[0].vel, Some(Velocity { vx: 190, vy: -190 }));
}

#[test]
fn wall_collision_corner_flips_both() {
    let mut st = ball_store(186_000, -316_000, 190, -190);
    ball_bounds_collision(&mut st);
    assert_eq!(st.entities[0].vel, Some(Velocity { vx: -190, vy: 190 }));
}

#[test]
fn scenario_full_speed_tick_hits_the_wall() {
    // Ball at (0,0), velocity (190,190) units/s, a full 1.0 s tick, field
    // half-extents (190,320), margin 5: the ball lands on (190,190) and
    // 190 > 190 - 5, so the x velocity flips on the same tick.
    let mut st = ball_store(0, 0, 190, 190);
    ball_movement(&mut st, 1000);
    assert_eq!(st.entities[0].x, 190_000);
    assert_eq!(st.entities[0].y, 190_000);
    ball_bounds_collision(&mut st);
    assert_eq!(st.entities[0].vel, Some(Velocity { vx: -190, vy: 190 }));
}

#[test]
fn paddle_bounce_flips_y_for_downward_ball() {
    let mut st = Store::new();
    st.spawn(Role::Ball, 0, -290_000, 10_000, 10_000, Some(Velocity { vx: 30, vy: -50 }));
    st.spawn(Role::Paddle, 0, -295_000, 38_000, 10_000, None);
    ball_player_collision(&mut st);
    // Only the y component flips: paddle bounces are always vertical.
    assert_eq!(st.entities[0].vel, Some(Velocity { vx: 30, vy: 50 }));
}

#[test]
fn upward_ball_never_paddle_bounces() {
    // Same overlapping geometry, but the ball moves upward: no bounce.
    let mut st = Store::new();
    st.spawn(Role::Ball, 0, -290_000, 10_000, 10_000, Some(Velocity { vx: 30, vy: 50 }));
    st.spawn(Role::Paddle, 0, -295_000, 38_000, 10_000, None);
    ball_player_collision(&mut st);
    assert_eq!(st.entities[0].vel, Some(Velocity { vx: 30, vy: 50 }));
}

#[test]
fn paddle_bounce_triggers_at_exact_touch() {
    // The ball's bottom edge exactly touches the paddle's top edge:
    // overlap bounds are inclusive, so the bounce still fires.
    let mut st = Store::new();
    st.spawn(Role::Ball, 0, -285_000, 10_000, 10_000, Some(Velocity { vx: 0, vy: -50 }));
    st.spawn(Role::Paddle, 0, -295_000, 38_000, 10_000, None);
    ball_player_collision(&mut st);
    assert_eq!(st.entities[0].vel, Some(Velocity { vx: 0, vy: 50 }));
}

#[test]
fn paddle_bounce_without_overlap_is_a_no_op() {
    let mut st = Store::new();
    st.spawn(Role::Ball, 0, 0, 10_000, 10_000, Some(Velocity { vx: 30, vy: -50 }));
    st.spawn(Role::Paddle, 0, -295_000, 38_000, 10_000, None);
    ball_player_collision(&mut st);
    assert_eq!(st.entities[0].vel, Some(Velocity { vx: 30, vy: -50 }));
}

#[test]
fn block_collision_destroys_first_overlap_only() {
    let mut st = Store::new();
    st.spawn(Role::Ball, 0, 0, 10_000, 10_000, Some(Velocity { vx: 50, vy: -50 }));
    // Two blocks both overlap the ball; only the first in spawn order goes.
    let b1 = st.spawn(Role::Block, 0, 8_000, 18_000, 8_000, None);
    let b2 = st.spawn(Role::Block, 0, -8_000, 18_000, 8_000, None);
    let mut score: i32 = 0;
    ball_blocks_collision(&mut st, &mut score);
    assert_eq!(score, 1);
    assert_eq!(st.count_role(Role::Block), 1);
    assert_eq!(st.query(Role::Block), vec![b2]);
    let _unused = b1;
    // The hit came from below the first block: a vertical bounce.
    assert_eq!(st.entities[0].vel, Some(Velocity { vx: 50, vy: 50 }));
}

#[test]
fn block_collision_side_hit_flips_x() {
    let mut st = Store::new();
    st.spawn(Role::Ball, -13_000, 0, 10_000, 10_000, Some(Velocity { vx: 50, vy: 10 }));
    // Ball well to the left of the block: shallow x-overlap, deep
    // y-overlap, so the classifier picks a horizontal bounce.
    st.spawn(Role::Block, 0, 0, 18_000, 8_000, None);
    let mut score: i32 = 0;
    ball_blocks_collision(&mut st, &mut score);
    assert_eq!(score, 1);
    assert_eq!(st.entities[0].vel, Some(Velocity { vx: -50, vy: 10 }));
}

#[test]
fn wall_check_is_strict_at_the_margin_line() {
    // Exactly on the margin line (|x| == 185 units) is not yet beyond it.
    let mut st = ball_store(185_000, 0, 190, 190);
    ball_bounds_collision(&mut st);
    assert_eq!(st.entities[0].vel, Some(Velocity { vx: 190, vy: 190 }));
    let mut st = ball_store(185_001, 0, 190, 190);
    ball_bounds_collision(&mut st);
    assert_eq!(st.entities[0].vel, Some(Velocity { vx: -190, vy: 190 }));
}

#[test]
fn block_collision_without_overlap_changes_nothing() {
    let mut st = Store::new();
    st.spawn(Role::Ball, 0, 0, 10_000, 10_000, Some(Velocity { vx: 50, vy: -50 }));
    st.spawn(Role::Block, 100_000, 100_000, 18_000, 8_000, None);
    let mut score: i32 = 7;
    ball_blocks_collision(&mut st, &mut score);
    assert_eq!(score, 7);
    assert_eq!(st.count_role(Role::Block), 1);
    assert_eq!(st.entities[0].vel, Some(Velocity { vx: 50, vy: -50 }));
}

#[test]
fn collision_systems_without_a_ball_are_no_ops() {
    let mut st = Store::new();
    st.spawn(Role::Block, 0, 0, 18_000, 8_000, None);
    let mut score: i32 = 0;
    ball_bounds_collision(&mut st);
    ball_player_collision(&mut st);
    ball_blocks_collision(&mut st, &mut score);
    assert_eq!(score, 0);
    assert_eq!(st.entities.len(), 1);
}
