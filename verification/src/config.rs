//! The constants of a session: field bounds, sizes, speeds and the spacing
//! of the brick grid. The field is laid out around the origin: the paddle
//! starts at x = 0 and each wall is centered on the axis it runs along.

use vstd::prelude::*;
use vstd::arithmetic::div_mod::{lemma_fundamental_div_mod, lemma_mod_bound};
use crate::geometry::Rect;
use crate::motion::Velocity;
use crate::UNIT;

verus! {

/// The obstacles that stand from the start besides the bricks: the paddle
/// and the four walls.
pub const FIXED_COLLIDERS: u64 = 5;

/// The settings of one session. They do not change while it runs.
#[derive(Clone, Copy, Debug, PartialEq, Eq, Structural)]
pub struct Config {
    /// The x coordinate of the center line of the left wall.
    pub wall_left: i64,
    /// The x coordinate of the center line of the right wall.
    pub wall_right: i64,
    /// The y coordinate of the center line of the top wall.
    pub wall_top: i64,
    /// The y coordinate of the center line of the bottom wall.
    pub wall_bottom: i64,
    pub wall_thickness: i64,
    pub paddle_width: i64,
    pub paddle_height: i64,
    /// The paddle's speed while a key is held.
    pub paddle_speed: i64,
    /// How far the paddle's center lies above the bottom wall.
    pub paddle_lift: i64,
    /// Where the ball starts, and its size.
    pub ball_start: Rect,
    pub ball_velocity: Velocity,
    pub brick_width: i64,
    pub brick_height: i64,
    pub gap_between_bricks: i64,
    pub gap_between_paddle_and_bricks: i64,
    pub gap_between_bricks_and_ceiling: i64,
    pub gap_between_bricks_and_sides: i64,
}

impl Config {
    /// Half the room the paddle must leave to a wall: half a wall plus half
    /// a paddle, rounded down.
    pub open spec fn margin(self) -> int {
        (self.wall_thickness + self.paddle_width) / 2
    }

    /// The least x the paddle's center may take.
    pub open spec fn paddle_min_x(self) -> int {
        self.wall_left + self.margin()
    }

    /// The greatest x the paddle's center may take.
    pub open spec fn paddle_max_x(self) -> int {
        self.wall_right - self.margin()
    }

    /// The y of the paddle's center, fixed for the session.
    pub open spec fn paddle_y(self) -> int {
        self.wall_bottom + self.paddle_lift
    }

    /// The distance between the centers of two neighbouring columns.
    pub open spec fn pitch_x(self) -> int {
        self.brick_width + self.gap_between_bricks
    }

    /// The distance between the centers of two neighbouring rows.
    pub open spec fn pitch_y(self) -> int {
        self.brick_height + self.gap_between_bricks
    }

    /// The width left for bricks between the side gaps.
    pub open spec fn grid_width(self) -> int {
        (self.wall_right - self.wall_left) - 2 * self.gap_between_bricks_and_sides
    }

    /// The height left for bricks between the paddle gap and the ceiling gap.
    pub open spec fn grid_height(self) -> int {
        (self.wall_top - self.wall_bottom) - self.gap_between_bricks_and_ceiling
            - self.gap_between_paddle_and_bricks
    }

    /// The number of brick columns: as many whole pitches as fit.
    pub open spec fn brick_cols(self) -> int {
        if self.grid_width() > 0 {
            self.grid_width() / self.pitch_x()
        } else {
            0
        }
    }

    /// The number of brick rows: as many whole pitches as fit.
    pub open spec fn brick_rows(self) -> int {
        if self.grid_height() > 0 {
            self.grid_height() / self.pitch_y()
        } else {
            0
        }
    }

    /// The number of bricks at the start.
    pub open spec fn brick_count(self) -> int {
        self.brick_rows() * self.brick_cols()
    }

    /// The x of the center of the bricks in column `col`.
    pub open spec fn brick_x(self, col: int) -> int {
        self.wall_left + self.gap_between_bricks_and_sides + self.brick_width / 2 + col
            * self.pitch_x()
    }

    /// The y of the center of the bricks in row `row`.
    pub open spec fn brick_y(self, row: int) -> int {
        self.wall_bottom + self.gap_between_paddle_and_bricks + self.brick_height / 2 + row
            * self.pitch_y()
    }

    /// The walls enclose a field and can be stored as rectangles.
    pub open spec fn walls_wf(self) -> bool {
        &&& self.wall_thickness > 0
        &&& self.wall_left < self.wall_right
        &&& self.wall_bottom < self.wall_top
        &&& (self.wall_right - self.wall_left) + self.wall_thickness <= i64::MAX
        &&& (self.wall_top - self.wall_bottom) + self.wall_thickness <= i64::MAX
    }

    /// The paddle has a size, a storable height above the floor, and a
    /// travel range that holds its starting place x = 0.
    pub open spec fn paddle_wf(self) -> bool {
        &&& self.paddle_width > 0
        &&& self.paddle_height > 0
        &&& i64::MIN <= self.paddle_y() <= i64::MAX
        &&& self.paddle_min_x() <= 0 <= self.paddle_max_x()
    }

    /// The bricks have a size, no gap is negative, and every brick gets an
    /// identifier.
    pub open spec fn bricks_wf(self) -> bool {
        &&& self.brick_width > 0
        &&& self.brick_height > 0
        &&& self.gap_between_bricks >= 0
        &&& self.gap_between_paddle_and_bricks >= 0
        &&& self.gap_between_bricks_and_ceiling >= 0
        &&& self.gap_between_bricks_and_sides >= 0
        &&& self.brick_count() + FIXED_COLLIDERS <= u64::MAX
    }

    /// The settings describe a playable session.
    pub open spec fn wf(self) -> bool {
        &&& self.walls_wf()
        &&& self.paddle_wf()
        &&& self.ball_start.wf()
        &&& self.ball_velocity.wf()
        &&& self.ball_velocity.is_moving()
        &&& self.bricks_wf()
    }
}

/// How many whole pitches fit into `space`.
fn whole_pitches(space: i128, pitch: i128) -> (n: u64)
    requires
        pitch > 0,
        space <= u64::MAX,
    ensures
        n == (if space > 0 {
            space / pitch
        } else {
            0
        }),
{
    if space > 0 {
        proof {
            let s = space as int;
            let p = pitch as int;
            lemma_fundamental_div_mod(s, p);
            lemma_mod_bound(s, p);
            assert(0 <= s / p <= s) by (nonlinear_arith)
                requires
                    s == p * (s / p) + s % p,
                    0 <= s % p,
                    s % p < p,
                    s > 0,
            ;
        }
        (space / pitch) as u64
    } else {
        0
    }
}

impl Config {
    /// The settings of the classic game: a field of 900 by 600 world units
    /// with walls 10 thick, a paddle of 120 by 20 that runs at 500 units per
    /// second 60 above the floor, a ball of 30 by 30 that starts at (0, -50)
    /// and flies down to the right at 200 along each axis, and bricks of 100
    /// by 30 set 5 apart.
    pub fn standard() -> (config: Config)
        ensures
            config.wf(),
            config.wall_left == -450 * UNIT,
            config.wall_right == 450 * UNIT,
            config.wall_top == 300 * UNIT,
            config.wall_bottom == -300 * UNIT,
            config.wall_thickness == 10 * UNIT,
            config.paddle_width == 120 * UNIT,
            config.paddle_height == 20 * UNIT,
            config.paddle_speed == 500,
            config.paddle_lift == 60 * UNIT,
            config.ball_start.x == 0,
            config.ball_start.y == -50 * UNIT,
            config.ball_start.w == 30 * UNIT,
            config.ball_start.h == 30 * UNIT,
            config.ball_velocity.x == 200,
            config.ball_velocity.y == -200,
            config.brick_width == 100 * UNIT,
            config.brick_height == 30 * UNIT,
            config.gap_between_bricks == 5 * UNIT,
            config.gap_between_paddle_and_bricks == 270 * UNIT,
            config.gap_between_bricks_and_ceiling == 20 * UNIT,
            config.gap_between_bricks_and_sides == 20 * UNIT,
            config.brick_rows() == 8,
            config.brick_cols() == 8,
    {
        Config {
            wall_left: -450 * UNIT,
            wall_right: 450 * UNIT,
            wall_top: 300 * UNIT,
            wall_bottom: -300 * UNIT,
            wall_thickness: 10 * UNIT,
            paddle_width: 120 * UNIT,
            paddle_height: 20 * UNIT,
            paddle_speed: 500,
            paddle_lift: 60 * UNIT,
            ball_start: Rect { x: 0, y: -50 * UNIT, w: 30 * UNIT, h: 30 * UNIT },
            ball_velocity: Velocity { x: 200, y: -200 },
            brick_width: 100 * UNIT,
            brick_height: 30 * UNIT,
            gap_between_bricks: 5 * UNIT,
            gap_between_paddle_and_bricks: 270 * UNIT,
            gap_between_bricks_and_ceiling: 20 * UNIT,
            gap_between_bricks_and_sides: 20 * UNIT,
        }
    }

    /// Tells whether the settings describe a playable session.
    pub fn is_valid(&self) -> (ok: bool)
        ensures
            ok == self.wf(),
    {
        let width: i128 = self.wall_right as i128 - self.wall_left as i128;
        let height: i128 = self.wall_top as i128 - self.wall_bottom as i128;
        let thickness: i128 = self.wall_thickness as i128;
        if !(thickness > 0 && width > 0 && height > 0 && width + thickness <= i64::MAX as i128
            && height + thickness <= i64::MAX as i128) {
            return false;
        }
        if !(self.paddle_width > 0 && self.paddle_height > 0) {
            return false;
        }
        let margin: i128 = (thickness + self.paddle_width as i128) / 2;
        let paddle_y: i128 = self.wall_bottom as i128 + self.paddle_lift as i128;
        if !(i64::MIN as i128 <= paddle_y && paddle_y <= i64::MAX as i128) {
            return false;
        }
        if !(self.wall_left as i128 + margin <= 0 && 0 <= self.wall_right as i128 - margin) {
            return false;
        }
        if !(self.ball_start.w > 0 && self.ball_start.h > 0) {
            return false;
        }
        if !(self.ball_velocity.x > i64::MIN && self.ball_velocity.y > i64::MIN) {
            return false;
        }
        if !(self.ball_velocity.x != 0 || self.ball_velocity.y != 0) {
            return false;
        }
        if !(self.brick_width > 0 && self.brick_height > 0 && self.gap_between_bricks >= 0
            && self.gap_between_paddle_and_bricks >= 0 && self.gap_between_bricks_and_ceiling >= 0
            && self.gap_between_bricks_and_sides >= 0) {
            return false;
        }
        let (rows, cols) = self.grid_dims();
        assert(rows * cols <= 0xffff_ffff_ffff_ffff * 0xffff_ffff_ffff_ffff) by (nonlinear_arith)
            requires
                0 <= rows <= 0xffff_ffff_ffff_ffff,
                0 <= cols <= 0xffff_ffff_ffff_ffff,
        ;
        (rows as u128) * (cols as u128) + (FIXED_COLLIDERS as u128) <= u64::MAX as u128
    }

    /// The number of rows and of columns of the brick grid.
    pub fn grid_dims(&self) -> (dims: (u64, u64))
        requires
            self.wall_left < self.wall_right,
            self.wall_bottom < self.wall_top,
            self.brick_width > 0,
            self.brick_height > 0,
            self.gap_between_bricks >= 0,
            self.gap_between_paddle_and_bricks >= 0,
            self.gap_between_bricks_and_ceiling >= 0,
            self.gap_between_bricks_and_sides >= 0,
        ensures
            dims.0 == self.brick_rows(),
            dims.1 == self.brick_cols(),
    {
        let grid_width: i128 = (self.wall_right as i128 - self.wall_left as i128) - 2 * (
        self.gap_between_bricks_and_sides as i128);
        let grid_height: i128 = (self.wall_top as i128 - self.wall_bottom as i128)
            - self.gap_between_bricks_and_ceiling as i128
            - self.gap_between_paddle_and_bricks as i128;
        let pitch_x: i128 = self.brick_width as i128 + self.gap_between_bricks as i128;
        let pitch_y: i128 = self.brick_height as i128 + self.gap_between_bricks as i128;
        (whole_pitches(grid_height, pitch_y), whole_pitches(grid_width, pitch_x))
    }

    /// The range of x that the paddle's center may take.
    pub fn paddle_range(&self) -> (range: (i64, i64))
        requires
            self.wf(),
        ensures
            range.0 == self.paddle_min_x(),
            range.1 == self.paddle_max_x(),
            range.0 <= 0 <= range.1,
    {
        let margin: i128 = (self.wall_thickness as i128 + self.paddle_width as i128) / 2;
        ((self.wall_left as i128 + margin) as i64, (self.wall_right as i128 - margin) as i64)
    }
}

} // verus!
