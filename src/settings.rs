use vstd::prelude::*;

use crate::geometry::{Vec2, COORD_LIMIT};
use crate::layout::{Gaps, ARENA_LIMIT};

verus! {

// A world unit is 1/16384 of a pixel and a tick 1/64 of a second, so a speed of `n` pixels
// per second moves `n * UNITS_PER_PIXEL / TICKS_PER_SECOND` world units per tick.
pub const UNITS_PER_PIXEL: i64 = 16384;

pub const TICKS_PER_SECOND: i64 = 64;

/// World units per tick that make one pixel per second: `UNITS_PER_PIXEL / TICKS_PER_SECOND`.
pub const PIXEL_PER_SECOND: i64 = 256;

pub const WALL_THICKNESS: i64 = 10 * UNITS_PER_PIXEL;

// x coordinates
pub const LEFT_WALL: i64 = -450 * UNITS_PER_PIXEL;

pub const RIGHT_WALL: i64 = 450 * UNITS_PER_PIXEL;

// y coordinates
pub const BOTTOM_WALL: i64 = -300 * UNITS_PER_PIXEL;

pub const TOP_WALL: i64 = 300 * UNITS_PER_PIXEL;

// These values are exact
pub const GAP_BETWEEN_PADDLE_AND_BRICKS: i64 = 270 * UNITS_PER_PIXEL;

pub const GAP_BETWEEN_BRICKS: i64 = 5 * UNITS_PER_PIXEL;

// These values are lower bounds, as the number of bricks is computed
pub const GAP_BETWEEN_BRICKS_AND_CEILING: i64 = 20 * UNITS_PER_PIXEL;

pub const GAP_BETWEEN_BRICKS_AND_SIDES: i64 = 10 * UNITS_PER_PIXEL;

/// The grid that the brick size is chosen for.
pub const TARGET_COLUMNS: u64 = 10;

pub const TARGET_ROWS: u64 = 10;

pub const PADDLE_HALF_WIDTH: i64 = 60 * UNITS_PER_PIXEL;

pub const PADDLE_HALF_HEIGHT: i64 = 10 * UNITS_PER_PIXEL;

pub const GAP_BETWEEN_PADDLE_AND_FLOOR: i64 = 60 * UNITS_PER_PIXEL;

/// World units per tick: 500 pixels per second.
pub const PADDLE_SPEED: i64 = 500 * PIXEL_PER_SECOND;

// How close can the paddle get to the wall
pub const PADDLE_PADDING: i64 = 10 * UNITS_PER_PIXEL;

pub const BALL_STARTING_X: i64 = 0;

pub const BALL_STARTING_Y: i64 = -50 * UNITS_PER_PIXEL;

pub const BALL_RADIUS: i64 = 15 * UNITS_PER_PIXEL;

/// World units per tick: 400 pixels per second.
pub const BALL_SPEED: i64 = 400 * PIXEL_PER_SECOND;

pub const INITIAL_BALL_DIRECTION_X: i64 = 1;

pub const INITIAL_BALL_DIRECTION_Y: i64 = -1;

/// Everything that shapes a new game besides the arena itself.
#[derive(Clone, Copy, Debug, PartialEq, Eq, Structural)]
pub struct Config {
    pub gaps: Gaps,
    pub target_columns: u64,
    pub target_rows: u64,
    pub wall_thickness: i64,
    pub paddle_half_size: Vec2,
    pub paddle_floor_gap: i64,
    pub paddle_speed: i64,
    pub paddle_padding: i64,
    pub ball_start: Vec2,
    pub ball_radius: i64,
    pub ball_speed: i64,
    pub ball_direction: Vec2,
}

impl Config {
    pub open spec fn wf(self) -> bool {
        &&& self.gaps.wf()
        &&& 0 <= self.wall_thickness <= ARENA_LIMIT
        &&& 0 <= self.paddle_half_size.x <= ARENA_LIMIT
        &&& 0 <= self.paddle_half_size.y <= ARENA_LIMIT
        &&& 0 <= self.paddle_floor_gap <= ARENA_LIMIT
        &&& 0 <= self.paddle_speed <= ARENA_LIMIT
        &&& 0 <= self.paddle_padding <= ARENA_LIMIT
        &&& self.ball_start.within(ARENA_LIMIT as int)
        &&& 0 <= self.ball_radius <= ARENA_LIMIT
        &&& 0 <= self.ball_speed <= ARENA_LIMIT
        &&& self.ball_direction.within(COORD_LIMIT as int)
    }

    /// The standard game.
    pub fn standard() -> (r: Config)
        ensures
            r.wf(),
            r.gaps == (Gaps {
                ceiling: GAP_BETWEEN_BRICKS_AND_CEILING,
                sides: GAP_BETWEEN_BRICKS_AND_SIDES,
                paddle_to_bricks: GAP_BETWEEN_PADDLE_AND_BRICKS,
                between_bricks: GAP_BETWEEN_BRICKS,
            }),
            r.target_columns == TARGET_COLUMNS,
            r.target_rows == TARGET_ROWS,
            r.wall_thickness == WALL_THICKNESS,
            r.paddle_half_size == (Vec2 { x: PADDLE_HALF_WIDTH, y: PADDLE_HALF_HEIGHT }),
            r.paddle_floor_gap == GAP_BETWEEN_PADDLE_AND_FLOOR,
            r.paddle_speed == PADDLE_SPEED,
            r.paddle_padding == PADDLE_PADDING,
            r.ball_start == (Vec2 { x: BALL_STARTING_X, y: BALL_STARTING_Y }),
            r.ball_radius == BALL_RADIUS,
            r.ball_speed == BALL_SPEED,
            r.ball_direction == (Vec2 { x: INITIAL_BALL_DIRECTION_X, y: INITIAL_BALL_DIRECTION_Y }),
    {
        Config {
            gaps: Gaps {
                ceiling: GAP_BETWEEN_BRICKS_AND_CEILING,
                sides: GAP_BETWEEN_BRICKS_AND_SIDES,
                paddle_to_bricks: GAP_BETWEEN_PADDLE_AND_BRICKS,
                between_bricks: GAP_BETWEEN_BRICKS,
            },
            target_columns: TARGET_COLUMNS,
            target_rows: TARGET_ROWS,
            wall_thickness: WALL_THICKNESS,
            paddle_half_size: Vec2 { x: PADDLE_HALF_WIDTH, y: PADDLE_HALF_HEIGHT },
            paddle_floor_gap: GAP_BETWEEN_PADDLE_AND_FLOOR,
            paddle_speed: PADDLE_SPEED,
            paddle_padding: PADDLE_PADDING,
            ball_start: Vec2 { x: BALL_STARTING_X, y: BALL_STARTING_Y },
            ball_radius: BALL_RADIUS,
            ball_speed: BALL_SPEED,
            ball_direction: Vec2 { x: INITIAL_BALL_DIRECTION_X, y: INITIAL_BALL_DIRECTION_Y },
        }
    }
}

} // verus!
