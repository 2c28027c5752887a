//! The ball and the kinematic update that moves it.

use vstd::prelude::*;
use crate::geometry::Rect;

verus! {

/// A velocity in world units per second.
#[derive(Clone, Copy, Debug, PartialEq, Eq, Structural)]
pub struct Velocity {
    pub x: i64,
    pub y: i64,
}

impl Velocity {
    /// Both components can be negated: neither is the least `i64`.
    pub open spec fn wf(self) -> bool {
        self.x > i64::MIN && self.y > i64::MIN
    }

    /// The square of the speed.
    pub open spec fn speed_squared(self) -> int {
        self.x * self.x + self.y * self.y
    }

    /// The body is not at rest.
    pub open spec fn is_moving(self) -> bool {
        self.x != 0 || self.y != 0
    }

    /// Builds a velocity, or nothing when a component cannot be negated.
    pub fn new(x: i64, y: i64) -> (v: Option<Velocity>)
        ensures
            v == (if x > i64::MIN && y > i64::MIN {
                Some(Velocity { x, y })
            } else {
                None
            }),
            v matches Some(vel) ==> vel.wf(),
    {
        if x > i64::MIN && y > i64::MIN {
            Some(Velocity { x, y })
        } else {
            None
        }
    }
}

/// The ball: a box that moves.
#[derive(Clone, Copy, Debug, PartialEq, Eq, Structural)]
pub struct Ball {
    pub rect: Rect,
    pub velocity: Velocity,
}

impl Ball {
    /// A ball has a proper box and a velocity that can be reflected, and it
    /// is never at rest.
    pub open spec fn wf(self) -> bool {
        self.rect.wf() && self.velocity.wf() && self.velocity.is_moving()
    }

    /// The x coordinate after `dt` quanta of free flight.
    pub open spec fn x_after(self, dt: u32) -> int {
        self.rect.x + self.velocity.x * dt
    }

    /// The y coordinate after `dt` quanta of free flight.
    pub open spec fn y_after(self, dt: u32) -> int {
        self.rect.y + self.velocity.y * dt
    }

    /// The ball after `dt` quanta of free flight: moved by its velocity,
    /// with its size and its velocity as before.
    pub open spec fn flown(self, dt: u32) -> Ball {
        Ball {
            rect: Rect {
                x: self.x_after(dt) as i64,
                y: self.y_after(dt) as i64,
                w: self.rect.w,
                h: self.rect.h,
            },
            velocity: self.velocity,
        }
    }

    /// The position after `dt` quanta of free flight can still be stored.
    pub open spec fn in_range_after(self, dt: u32) -> bool {
        &&& i64::MIN <= self.x_after(dt) <= i64::MAX
        &&& i64::MIN <= self.y_after(dt) <= i64::MAX
    }

    /// Builds a ball, or nothing when the box has no size, the velocity
    /// cannot be reflected, or the ball would be at rest.
    pub fn new(rect: Rect, velocity: Velocity) -> (b: Option<Ball>)
        ensures
            b == (if rect.wf() && velocity.wf() && velocity.is_moving() {
                Some(Ball { rect, velocity })
            } else {
                None
            }),
            b matches Some(ball) ==> ball.wf(),
    {
        if rect.w > 0 && rect.h > 0 && velocity.x > i64::MIN && velocity.y > i64::MIN && (velocity.x
            != 0 || velocity.y != 0) {
            Some(Ball { rect, velocity })
        } else {
            None
        }
    }

    /// Tells whether the ball can fly for `dt` quanta without leaving the
    /// range of coordinates.
    pub fn can_move(&self, dt: u32) -> (ok: bool)
        ensures
            ok == self.in_range_after(dt),
    {
        let nx: i128 = travel(self.rect.x, self.velocity.x, dt);
        let ny: i128 = travel(self.rect.y, self.velocity.y, dt);
        i64::MIN as i128 <= nx && nx <= i64::MAX as i128 && i64::MIN as i128 <= ny && ny
            <= i64::MAX as i128
    }
}

/// Where a coordinate `from` ends up after `dt` quanta at `speed`, in a width
/// that always holds it.
pub fn travel(from: i64, speed: i64, dt: u32) -> (to: i128)
    ensures
        to == from + speed * dt,
{
    assert(-0x8000_0000_0000_0000_0000_0000 <= speed * dt <= 0x8000_0000_0000_0000_0000_0000)
        by (nonlinear_arith)
        requires
            -0x8000_0000_0000_0000 <= speed < 0x8000_0000_0000_0000,
            0 <= dt < 0x1_0000_0000,
    ;
    (from as i128) + (speed as i128) * (dt as i128)
}

/// Moves the ball by its velocity for `dt` quanta: a pure kinematic update,
/// blind to walls and obstacles.
pub fn apply_velocity(ball: &mut Ball, dt: u32)
    requires
        old(ball).in_range_after(dt),
    ensures
        *final(ball) == old(ball).flown(dt),
        final(ball).rect.x == old(ball).x_after(dt),
        final(ball).rect.y == old(ball).y_after(dt),
{
    let nx: i128 = travel(ball.rect.x, ball.velocity.x, dt);
    let ny: i128 = travel(ball.rect.y, ball.velocity.y, dt);
    ball.rect.x = nx as i64;
    ball.rect.y = ny as i64;
}

} // verus!
