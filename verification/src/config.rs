use vstd::prelude::*;

verus! {

/// How many fixed-point steps make one world unit.  Positions and extents
/// are stored in these "milli-units"; velocities in milli-units per
/// millisecond, which is numerically the same as world units per second.
pub const MILLI: i64 = 1000;

/// Full width of the play field: 380 world units.
pub const FIELD_WIDTH: i64 = 380 * MILLI;

/// Full height of the play field: 640 world units.
pub const FIELD_HEIGHT: i64 = 640 * MILLI;

/// Half the field width.
pub const FIELD_HALF_WIDTH: i64 = 190 * MILLI;

/// Half the field height.
pub const FIELD_HALF_HEIGHT: i64 = 320 * MILLI;

/// Paddle speed: 190 world units per second.
pub const PADDLE_SPEED: i64 = 190;

/// Full width of the paddle: 38 world units.
pub const PADDLE_WIDTH: i64 = 38 * MILLI;

/// Full height of the paddle: 10 world units.
pub const PADDLE_HEIGHT: i64 = 10 * MILLI;

/// Paddle spawn height: 25 units above the bottom edge of the field.
pub const PADDLE_START_Y: i64 = -FIELD_HALF_HEIGHT + 25 * MILLI;

/// The ball is a square of 10 world units.
pub const BALL_SIZE: i64 = 10 * MILLI;

/// Initial ball speed along each axis: 190 world units per second.
pub const BALL_START_SPEED: i64 = PADDLE_SPEED;

/// Margin subtracted from the field half-extents for the wall bounce test.
pub const BALL_MARGIN: i64 = 5 * MILLI;

/// Horizontal pitch of the block grid: one block every 20 world units.
pub const BLOCK_CELL_WIDTH: i64 = 20 * MILLI;

/// Vertical pitch of the block grid: one row every 10 world units.
pub const BLOCK_ROW_HEIGHT: i64 = 10 * MILLI;

/// Full width of one block: 18 world units.
pub const BLOCK_WIDTH: i64 = 18 * MILLI;

/// Full height of one block: 8 world units.
pub const BLOCK_HEIGHT: i64 = 8 * MILLI;

/// Grid gap factor: one cell of padding on each side of the grid.
pub const GRID_GAP: i64 = 1;

/// Vertical offset of the block grid below the top edge of the field.
pub const BLOCK_TOP_OFFSET: i64 = 5 * MILLI;

/// The paddle center-x is clamped to `[-PADDLE_BOUND_X, PADDLE_BOUND_X]`:
/// half the field width minus half the paddle width.
pub const PADDLE_BOUND_X: i64 = FIELD_HALF_WIDTH - 19 * MILLI;

/// A ball beyond `WALL_X` on either side bounces off the vertical walls:
/// half the field width minus the ball margin.
pub const WALL_X: i64 = FIELD_HALF_WIDTH - BALL_MARGIN;

/// A ball beyond `WALL_Y` above or below bounces off the horizontal walls.
pub const WALL_Y: i64 = FIELD_HALF_HEIGHT - BALL_MARGIN;

/// Rows in the block grid: the top quarter of the field, one row per
/// `BLOCK_ROW_HEIGHT`, minus `GRID_GAP` rows of padding at each end.
/// `lemma_grid_dimensions` pins this to that formula.
pub const GRID_ROWS: usize = 14;

/// Columns in the block grid: one per `BLOCK_CELL_WIDTH` across the field,
/// minus `GRID_GAP` columns of padding at each end.
pub const GRID_COLS: usize = 17;

/// Total number of blocks spawned when play starts.
pub const GRID_BLOCKS: usize = GRID_ROWS * GRID_COLS;

/// Largest elapsed time accepted for one tick, in milliseconds.  Purely a
/// machine limit so that displacement arithmetic stays exact.
pub const MAX_TICK_MS: i64 = 1000 * MILLI;

/// The derived constants equal their defining formulas: the half extents
/// halve the field, the paddle bound is half the field width minus half
/// the paddle width, and the grid dimensions come from covering the top
/// quarter of the field at one row per `BLOCK_ROW_HEIGHT` and the field
/// width at one column per `BLOCK_CELL_WIDTH`, each less twice the gap.
pub proof fn lemma_config_derivations()
    ensures
        2 * FIELD_HALF_WIDTH == FIELD_WIDTH,
        2 * FIELD_HALF_HEIGHT == FIELD_HEIGHT,
        2 * PADDLE_BOUND_X == FIELD_WIDTH - PADDLE_WIDTH,
        GRID_ROWS == (FIELD_HEIGHT as int) / 4 / (BLOCK_ROW_HEIGHT as int) - 2 * GRID_GAP,
        GRID_COLS == (FIELD_WIDTH as int) / (BLOCK_CELL_WIDTH as int) - 2 * GRID_GAP,
        GRID_BLOCKS == GRID_ROWS * GRID_COLS,
{
}

} // verus!
