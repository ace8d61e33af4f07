use breakout_core::game::{GameState, InputSnapshot, Scoreboard, Simulation};
use breakout_core::store::{Role, Store, Velocity};

fn idle_input(dt: i64) -> InputSnapshot {
    InputSnapshot { elapsed_ms: dt, left_held: false, right_held: false, start_triggered: false }
}

fn start_input() -> InputSnapshot {
    InputSnapshot { elapsed_ms: 16, left_held: false, right_held: false, start_triggered: true }
}

#[test]
fn new_simulation_shows_the_menu() {
    let sim = Simulation::new();
    assert_eq!(sim.state, GameState::MenuShown);
    assert_eq!(sim.score(), 0);
    assert_eq!(sim.store.entities.len(), 0);
}

#[test]
fn menu_tick_without_start_changes_nothing() {
    let mut sim = Simulation::new();
    sim.tick(&idle_input(16));
    assert_eq!(sim.state, GameState::MenuShown);
    assert_eq!(sim.store.entities.len(), 0);
}

#[test]
fn scenario_entering_playing_spawns_the_session() {
    let mut sim = Simulation::new();
    sim.tick(&start_input());
    assert_eq!(sim.state, GameState::Playing);
    assert_eq!(sim.score(), 0);
    assert_eq!(sim.store.count_role(Role::Paddle), 1);
    assert_eq!(sim.store.count_role(Role::Ball), 1);
    // rows * columns per the configured grid formula.
    let rows = 640 / 4 / 10 - 2;
    let columns = 380 / 20 - 2;
    assert_eq!(rows, 14);
    assert_eq!(columns, 17);
    assert_eq!(sim.store.count_role(Role::Block), rows * columns);
}

#[test]
fn entering_playing_places_the_fixed_entities() {
    let mut sim = Simulation::new();
    sim.tick(&start_input());
    let paddle = &sim.store.entities[0];
    assert_eq!(paddle.role, Role::Paddle);
    assert_eq!((paddle.x, paddle.y), (0, -295_000));
    assert_eq!((paddle.w, paddle.h), (38_000, 10_000));
    let ball = &sim.store.entities[1];
    assert_eq!(ball.role, Role::Ball);
    assert_eq!((ball.x, ball.y), (0, 0));
    assert_eq!(ball.vel, Some(Velocity { vx: 190, vy: 190 }));
    // First block: top-right corner of the grid, one gap cell in.
    let first = &sim.store.entities[2];
    assert_eq!(first.role, Role::Block);
    assert_eq!((first.x, first.y), (160_000, 305_000));
    assert_eq!((first.w, first.h), (18_000, 8_000));
    // Last block: row 13, column 16.
    let last = sim.store.entities.last().unwrap();
    assert_eq!((last.x, last.y), (-160_000, 175_000));
}

#[test]
fn start_trigger_while_playing_is_ignored() {
    let mut sim = Simulation::new();
    sim.tick(&start_input());
    let entities_before = sim.store.entities.len();
    sim.tick(&start_input());
    assert_eq!(sim.state, GameState::Playing);
    assert_eq!(sim.store.entities.len(), entities_before);
    assert_eq!(sim.score(), 0);
}

#[test]
fn playing_tick_runs_the_system_pipeline() {
    let mut sim = Simulation::new();
    sim.tick(&start_input());
    // One full second: the ball flies from the center to (190,190) and
    // bounces off the right wall within the same tick.
    sim.tick(&idle_input(1000));
    let ball = &sim.store.entities[1];
    assert_eq!((ball.x, ball.y), (190_000, 190_000));
    assert_eq!(ball.vel, Some(Velocity { vx: -190, vy: 190 }));
    // The paddle stayed put without input.
    assert_eq!(sim.store.entities[0].x, 0);
}

#[test]
fn at_most_one_paddle_and_ball_throughout_a_session() {
    let mut sim = Simulation::new();
    sim.tick(&start_input());
    for i in 0..120 {
        let input = InputSnapshot {
            elapsed_ms: 16,
            left_held: i % 3 == 0,
            right_held: i % 5 == 0,
            start_triggered: i % 7 == 0,
        };
        sim.tick(&input);
        assert_eq!(sim.store.count_role(Role::Paddle), 1);
        assert_eq!(sim.store.count_role(Role::Ball), 1);
        // The session ledger: score counts the destroyed blocks.
        let blocks = sim.store.count_role(Role::Block) as i32;
        assert_eq!(sim.score(), 14 * 17 - blocks);
    }
}

#[test]
fn playing_tick_moves_the_paddle() {
    let mut sim = Simulation::new();
    sim.tick(&start_input());
    let input = InputSnapshot {
        elapsed_ms: 100,
        left_held: true,
        right_held: false,
        start_triggered: false,
    };
    sim.tick(&input);
    assert_eq!(sim.store.entities[0].x, -19_000);
}

#[test]
fn scenario_block_hit_scores_and_despawns() {
    // A playing session built directly: a ball overlapping one block.
    let mut store = Store::new();
    store.spawn(Role::Ball, 0, 0, 10_000, 10_000, Some(Velocity { vx: 50, vy: 50 }));
    store.spawn(Role::Block, 0, 8_000, 18_000, 8_000, None);
    store.spawn(Role::Block, 60_000, 8_000, 18_000, 8_000, None);
    let mut sim = Simulation {
        state: GameState::Playing,
        scoreboard: Scoreboard { score: 0 },
        store,
    };
    // dt = 0: no movement, so exactly the overlap decides.
    sim.tick(&idle_input(0));
    assert_eq!(sim.score(), 1);
    assert_eq!(sim.store.count_role(Role::Block), 1);
    // A second tick finds no remaining overlap: score and blocks keep.
    sim.tick(&idle_input(0));
    assert_eq!(sim.score(), 1);
    assert_eq!(sim.store.count_role(Role::Block), 1);
}

#[test]
fn score_rises_by_one_per_destroyed_block() {
    // Three ticks, two of which detect a block collision: the score ends
    // at starting blocks minus remaining blocks.
    let mut store = Store::new();
    store.spawn(Role::Ball, 0, 0, 10_000, 10_000, Some(Velocity { vx: 0, vy: 0 }));
    store.spawn(Role::Block, 0, 0, 18_000, 8_000, None);
    store.spawn(Role::Block, 0, 0, 18_000, 8_000, None);
    let mut sim = Simulation {
        state: GameState::Playing,
        scoreboard: Scoreboard { score: 0 },
        store,
    };
    sim.tick(&idle_input(0));
    sim.tick(&idle_input(0));
    sim.tick(&idle_input(0));
    assert_eq!(sim.score(), 2);
    assert_eq!(sim.store.count_role(Role::Block), 0);
}

#[test]
fn try_tick_rejects_an_out_of_range_frame() {
    let mut sim = Simulation::new();
    assert!(!sim.try_tick(&idle_input(-1)));
    assert!(!sim.try_tick(&idle_input(2_000_000)));
    assert_eq!(sim.state, GameState::MenuShown);
    assert!(sim.try_tick(&start_input()));
    assert_eq!(sim.state, GameState::Playing);
}
