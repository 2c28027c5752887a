//! The paddle controller: two held keys become a direction, and the paddle
//! moves that way at its speed, held between the walls.

use vstd::prelude::*;
use crate::config::Config;

verus! {

/// The movement keys that are held during a tick.
#[derive(Clone, Copy, Debug, PartialEq, Eq, Structural)]
pub struct Input {
    pub move_left: bool,
    pub move_right: bool,
}

/// The direction the keys ask for: -1 for left, +1 for right, 0 for neither
/// or for both, which cancel.
pub open spec fn direction(input: Input) -> int {
    (if input.move_right {
        1int
    } else {
        0int
    }) - (if input.move_left {
        1int
    } else {
        0int
    })
}

/// `x` held to the range from `lo` to `hi`: first cut down to `hi`, then
/// raised to `lo`.
pub open spec fn clamp(x: int, lo: int, hi: int) -> int {
    let cut = if x > hi {
        hi
    } else {
        x
    };
    if cut < lo {
        lo
    } else {
        cut
    }
}

/// Where the paddle's center is after one tick of `dt` quanta.
pub open spec fn paddle_target(x: int, input: Input, dt: u32, config: Config) -> int {
    clamp(
        x + direction(input) * config.paddle_speed * dt,
        config.paddle_min_x(),
        config.paddle_max_x(),
    )
}

/// Where the paddle's center is after one tick for each entry of `inputs`,
/// first to last.
pub open spec fn paddle_run(x: int, inputs: Seq<Input>, dt: u32, config: Config) -> int
    decreases inputs.len(),
{
    if inputs.len() == 0 {
        x
    } else {
        paddle_target(paddle_run(x, inputs.drop_last(), dt, config), inputs.last(), dt, config)
    }
}

/// The direction the keys ask for.
pub fn steer(input: Input) -> (d: i8)
    ensures
        d == direction(input),
        -1 <= d <= 1,
{
    let mut d: i8 = 0;
    if input.move_left {
        d = d - 1;
    }
    if input.move_right {
        d = d + 1;
    }
    d
}

/// Moves the paddle for one tick and hands back the new x of its center,
/// which always lies in the paddle's travel range.
pub fn paddle_mov(x: i64, input: Input, dt: u32, config: &Config) -> (nx: i64)
    requires
        config.wf(),
    ensures
        nx == paddle_target(x as int, input, dt, *config),
        config.paddle_min_x() <= nx <= config.paddle_max_x(),
{
    let (lo, hi) = config.paddle_range();
    let d = steer(input);
    let speed = config.paddle_speed;
    assert(-0x8000_0000_0000_0000_0000_0000 <= d * speed * dt <= 0x8000_0000_0000_0000_0000_0000
        && -0x8000_0000_0000_0000 <= d * speed <= 0x8000_0000_0000_0000) by (nonlinear_arith)
        requires
            -1 <= d <= 1,
            -0x8000_0000_0000_0000 <= speed < 0x8000_0000_0000_0000,
            0 <= dt < 0x1_0000_0000,
    ;
    let mut nx: i128 = (x as i128) + (d as i128) * (speed as i128) * (dt as i128);
    if nx > hi as i128 {
        nx = hi as i128;
    }
    if nx < lo as i128 {
        nx = lo as i128;
    }
    nx as i64
}

/// The paddle never leaves its travel range: after any number of ticks,
/// whatever keys are held, its center lies between the two bounds. Before
/// the first tick it is where it was put.
pub proof fn lemma_paddle_stays_in_range(x: int, inputs: Seq<Input>, dt: u32, config: Config)
    requires
        config.wf(),
    ensures
        inputs.len() > 0 ==> config.paddle_min_x() <= paddle_run(x, inputs, dt, config)
            <= config.paddle_max_x(),
        config.paddle_min_x() <= x <= config.paddle_max_x() ==> config.paddle_min_x()
            <= paddle_run(x, inputs, dt, config) <= config.paddle_max_x(),
    decreases inputs.len(),
{
    if inputs.len() > 0 {
        lemma_paddle_stays_in_range(x, inputs.drop_last(), dt, config);
    }
}

/// Opposite keys cancel: while both are held, or neither, a paddle inside
/// its range stays where it is, for as many ticks as that lasts.
pub proof fn lemma_opposite_keys_cancel(x: int, inputs: Seq<Input>, dt: u32, config: Config)
    requires
        config.paddle_min_x() <= x <= config.paddle_max_x(),
        forall|k: int| 0 <= k < inputs.len() ==> (#[trigger] inputs[k]).move_left == inputs[k].move_right,
    ensures
        paddle_run(x, inputs, dt, config) == x,
    decreases inputs.len(),
{
    if inputs.len() > 0 {
        let init = inputs.drop_last();
        assert forall|k: int| 0 <= k < init.len() implies (#[trigger] init[k]).move_left
            == init[k].move_right by {
            assert(init[k] == inputs[k]);
        }
        lemma_opposite_keys_cancel(x, init, dt, config);
        assert(direction(inputs.last()) == 0);
        assert(0 * config.paddle_speed * dt == 0) by (nonlinear_arith);
    }
}

} // verus!
