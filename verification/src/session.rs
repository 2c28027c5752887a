//! A session: the ball, the obstacles and the score, laid out at the start
//! and advanced one fixed tick at a time.

use vstd::prelude::*;
use vstd::arithmetic::div_mod::{
    lemma_fundamental_div_mod,
    lemma_fundamental_div_mod_converse,
    lemma_mod_bound,
};
use crate::collision::{
    ascending,
    check_ball_collisions,
    destroyed,
    ids,
    lemma_survivors_keep_order,
    outlasts,
    survivors,
    velocity_after,
    Collider,
    Kind,
};
use crate::config::{Config, FIXED_COLLIDERS};
use crate::geometry::Rect;
use crate::motion::{apply_velocity, Ball};
use crate::paddle::{paddle_mov, paddle_target, Input};
use crate::scoreboard::{wrapped, Scoreboard};

verus! {

/// The paddle as it stands at the start.
pub open spec fn initial_paddle(config: Config) -> Collider {
    Collider {
        id: 0,
        rect: Rect {
            x: 0,
            y: config.paddle_y() as i64,
            w: config.paddle_width,
            h: config.paddle_height,
        },
        kind: Kind::Paddle,
    }
}

/// The wall with identifier `k`: 1 is the left wall, 2 the right, 3 the top
/// and 4 the bottom. Side walls span the height of the field and the other
/// two its width, each lengthened by one thickness to close the corners.
pub open spec fn initial_wall(config: Config, k: int) -> Collider {
    let tall = Rect {
        x: if k == 1 {
            config.wall_left
        } else {
            config.wall_right
        },
        y: 0,
        w: config.wall_thickness,
        h: ((config.wall_top - config.wall_bottom) + config.wall_thickness) as i64,
    };
    let wide = Rect {
        x: 0,
        y: if k == 3 {
            config.wall_top
        } else {
            config.wall_bottom
        },
        w: ((config.wall_right - config.wall_left) + config.wall_thickness) as i64,
        h: config.wall_thickness,
    };
    Collider {
        id: k as u64,
        rect: if k <= 2 {
            tall
        } else {
            wide
        },
        kind: Kind::Wall,
    }
}

/// The `n`-th brick of the grid, counted row by row from the lowest row and
/// within a row from the left.
pub open spec fn initial_brick(config: Config, n: int) -> Collider {
    Collider {
        id: (FIXED_COLLIDERS + n) as u64,
        rect: Rect {
            x: config.brick_x(n % config.brick_cols()) as i64,
            y: config.brick_y(n / config.brick_cols()) as i64,
            w: config.brick_width,
            h: config.brick_height,
        },
        kind: Kind::Brick,
    }
}

/// The obstacle with identifier `k` at the start.
pub open spec fn initial_collider(config: Config, k: int) -> Collider {
    if k == 0 {
        initial_paddle(config)
    } else if k < FIXED_COLLIDERS {
        initial_wall(config, k)
    } else {
        initial_brick(config, k - FIXED_COLLIDERS)
    }
}

/// Every obstacle at the start: the paddle, the four walls, then the bricks.
pub open spec fn initial_colliders(config: Config) -> Seq<Collider> {
    Seq::new(
        (FIXED_COLLIDERS + config.brick_count()) as nat,
        |k: int| initial_collider(config, k),
    )
}

/// The obstacles with the paddle's center moved to `x`.
pub open spec fn with_paddle_at(cs: Seq<Collider>, x: int) -> Seq<Collider> {
    cs.update(
        0,
        Collider {
            id: cs[0].id,
            rect: Rect { x: x as i64, y: cs[0].rect.y, w: cs[0].rect.w, h: cs[0].rect.h },
            kind: cs[0].kind,
        },
    )
}

/// The state of one game.
#[derive(Clone, Debug)]
pub struct Session {
    pub config: Config,
    pub ball: Ball,
    /// Everything the ball can hit, in the order of creation. The paddle
    /// comes first.
    pub colliders: Vec<Collider>,
    pub score: Scoreboard,
}

impl Session {
    /// The paddle's rectangle.
    pub open spec fn paddle_rect(self) -> Rect {
        self.colliders@[0].rect
    }

    /// The obstacles are sound: the first is the one paddle, every
    /// rectangle has a size, and identifiers grow along the sequence.
    pub open spec fn colliders_wf(self) -> bool {
        &&& self.colliders@.len() >= 1
        &&& self.colliders@[0].kind == Kind::Paddle
        &&& forall|i: int|
            1 <= i < self.colliders@.len() ==> (#[trigger] self.colliders@[i]).kind != Kind::Paddle
        &&& forall|i: int| 0 <= i < self.colliders@.len() ==> (#[trigger] self.colliders@[i]).rect.wf()
        &&& ascending(self.colliders@)
    }

    /// The paddle keeps its height above the floor and its size, and its
    /// center lies in its travel range.
    pub open spec fn paddle_wf(self) -> bool {
        &&& self.paddle_rect().y == self.config.paddle_y()
        &&& self.paddle_rect().w == self.config.paddle_width
        &&& self.paddle_rect().h == self.config.paddle_height
        &&& self.config.paddle_min_x() <= self.paddle_rect().x <= self.config.paddle_max_x()
    }

    /// The session is in a state that a tick can start from.
    pub open spec fn wf(self) -> bool {
        &&& self.config.wf()
        &&& self.ball.wf()
        &&& self.colliders_wf()
        &&& self.paddle_wf()
    }

    /// The obstacles once the paddle controller has run for a tick.
    pub open spec fn colliders_after_paddle(self, input: Input, dt: u32) -> Seq<Collider> {
        with_paddle_at(
            self.colliders@,
            paddle_target(self.paddle_rect().x as int, input, dt, self.config),
        )
    }

    /// The ball's rectangle once it has flown for a tick.
    pub open spec fn ball_rect_after(self, dt: u32) -> Rect {
        self.ball.flown(dt).rect
    }

    /// The paddle's rectangle.
    pub fn paddle(&self) -> (rect: Rect)
        requires
            self.wf(),
        ensures
            rect == self.paddle_rect(),
    {
        self.colliders[0].rect
    }

    /// Runs one fixed tick of `dt` quanta: the paddle follows the keys, the
    /// ball flies, and the ball is then tested, where it has arrived,
    /// against every obstacle. Hands back the identifiers of the bricks
    /// that were destroyed. Whether the ball can fly that long is what
    /// [`Ball::can_move`] tells.
    pub fn tick(&mut self, input: Input, dt: u32) -> (gone: Vec<u64>)
        requires
            old(self).wf(),
            old(self).ball.in_range_after(dt),
        ensures
            final(self).wf(),
            final(self).config == old(self).config,
            final(self).ball.rect == old(self).ball_rect_after(dt),
            final(self).ball.velocity == velocity_after(
                old(self).ball.velocity,
                old(self).ball_rect_after(dt),
                old(self).colliders_after_paddle(input, dt),
            ),
            final(self).ball.velocity.speed_squared() == old(self).ball.velocity.speed_squared(),
            final(self).colliders@ == survivors(
                old(self).ball_rect_after(dt),
                old(self).colliders_after_paddle(input, dt),
            ),
            final(self).paddle_rect().x == paddle_target(
                old(self).paddle_rect().x as int,
                input,
                dt,
                old(self).config,
            ),
            gone@ == ids(
                destroyed(
                    old(self).ball_rect_after(dt),
                    old(self).colliders_after_paddle(input, dt),
                ),
            ),
            final(self).colliders@.len() + gone@.len() == old(self).colliders@.len(),
            final(self).score.score == wrapped(old(self).score.score + gone@.len()),
    {
        let paddle = self.colliders[0];
        let nx = paddle_mov(paddle.rect.x, input, dt, &self.config);
        self.colliders.set(
            0,
            Collider {
                id: paddle.id,
                rect: Rect { x: nx, y: paddle.rect.y, w: paddle.rect.w, h: paddle.rect.h },
                kind: paddle.kind,
            },
        );
        let ghost moved = self.colliders@;
        assert(moved == old(self).colliders_after_paddle(input, dt));
        assert(ascending(moved)) by {
            assert forall|i: int, j: int| 0 <= i < j < moved.len() implies (#[trigger] moved[i]).id
                < (#[trigger] moved[j]).id by {
                assert(moved[i].id == old(self).colliders@[i].id);
                assert(moved[j].id == old(self).colliders@[j].id);
            }
        }
        apply_velocity(&mut self.ball, dt);
        let ghost at = self.ball.rect;
        assert(at == old(self).ball_rect_after(dt));
        let gone = check_ball_collisions(&mut self.ball, &mut self.colliders, &mut self.score);
        proof {
            lemma_survivors_keep_order(at, moved);
            crate::collision::lemma_pass_keeps_speed(old(self).ball.velocity, at, moved);
            let left = survivors(at, moved);
            assert(outlasts(at)(moved[0]));
            assert forall|i: int| 1 <= i < left.len() implies (#[trigger] left[i]).kind
                != Kind::Paddle by {
                assert(moved.contains(left[i]));
                let j = choose|j: int| 0 <= j < moved.len() && moved[j] == left[i];
                if j == 0 {
                    assert(left[0].id < left[i].id);
                }
            }
            assert forall|i: int| 0 <= i < left.len() implies (#[trigger] left[i]).rect.wf() by {
                assert(moved.contains(left[i]));
                let j = choose|j: int| 0 <= j < moved.len() && moved[j] == left[i];
                assert(old(self).colliders@[j].rect.wf());
            }
        }
        gone
    }
}

/// Where the brick of row `row` and column `col` stands in the grid: it has
/// a number of its own, and it lies between the walls.
proof fn lemma_brick_place(config: Config, row: int, col: int)
    requires
        config.wf(),
        0 <= row < config.brick_rows(),
        0 <= col < config.brick_cols(),
    ensures
        0 <= row * config.brick_cols() + col < config.brick_count(),
        (row * config.brick_cols() + col) / config.brick_cols() == row,
        (row * config.brick_cols() + col) % config.brick_cols() == col,
        0 <= col * config.pitch_x() <= config.grid_width() - config.pitch_x(),
        0 <= row * config.pitch_y() <= config.grid_height() - config.pitch_y(),
        config.wall_left <= config.brick_x(col) <= config.wall_right,
        config.wall_bottom <= config.brick_y(row) <= config.wall_top,
{
    let rows = config.brick_rows();
    let cols = config.brick_cols();
    let px = config.pitch_x();
    let py = config.pitch_y();
    let gw = config.grid_width();
    let gh = config.grid_height();
    lemma_fundamental_div_mod(gw, px);
    lemma_mod_bound(gw, px);
    lemma_fundamental_div_mod(gh, py);
    lemma_mod_bound(gh, py);
    assert(0 <= col * px <= gw - px) by (nonlinear_arith)
        requires
            0 <= col < cols,
            px > 0,
            gw == px * cols + gw % px,
            0 <= gw % px,
    ;
    assert(0 <= row * py <= gh - py) by (nonlinear_arith)
        requires
            0 <= row < rows,
            py > 0,
            gh == py * rows + gh % py,
            0 <= gh % py,
    ;
    assert(0 <= row * cols && row * cols + cols <= rows * cols) by (nonlinear_arith)
        requires
            0 <= row < rows,
            0 < cols,
    ;
    lemma_fundamental_div_mod_converse(row * cols + col, cols, row, col);
}

/// Lays out a session: the paddle at x = 0 above the floor, the ball at its
/// starting place with its starting velocity, the four walls, the grid of
/// bricks, and a score of zero. Settings that describe no playable session
/// give nothing.
pub fn setup(config: Config) -> (session: Option<Session>)
    ensures
        session is Some <==> config.wf(),
        session matches Some(s) ==> {
            &&& s.wf()
            &&& s.config == config
            &&& s.ball == (Ball { rect: config.ball_start, velocity: config.ball_velocity })
            &&& s.colliders@ == initial_colliders(config)
            &&& s.score.score == 0
        },
{
    if !config.is_valid() {
        return None;
    }
    let thickness = config.wall_thickness;
    let tall: i64 = (config.wall_top as i128 - config.wall_bottom as i128 + thickness as i128) as i64;
    let wide: i64 = (config.wall_right as i128 - config.wall_left as i128 + thickness as i128) as i64;
    let paddle_y: i64 = (config.wall_bottom as i128 + config.paddle_lift as i128) as i64;
    let mut colliders: Vec<Collider> = Vec::new();
    colliders.push(
        Collider {
            id: 0,
            rect: Rect { x: 0, y: paddle_y, w: config.paddle_width, h: config.paddle_height },
            kind: Kind::Paddle,
        },
    );
    colliders.push(
        Collider {
            id: 1,
            rect: Rect { x: config.wall_left, y: 0, w: thickness, h: tall },
            kind: Kind::Wall,
        },
    );
    colliders.push(
        Collider {
            id: 2,
            rect: Rect { x: config.wall_right, y: 0, w: thickness, h: tall },
            kind: Kind::Wall,
        },
    );
    colliders.push(
        Collider {
            id: 3,
            rect: Rect { x: 0, y: config.wall_top, w: wide, h: thickness },
            kind: Kind::Wall,
        },
    );
    colliders.push(
        Collider {
            id: 4,
            rect: Rect { x: 0, y: config.wall_bottom, w: wide, h: thickness },
            kind: Kind::Wall,
        },
    );
    let (rows, cols) = config.grid_dims();
    let offset_x: i128 = config.wall_left as i128 + config.gap_between_bricks_and_sides as i128 + (
    config.brick_width / 2) as i128;
    let offset_y: i128 = config.wall_bottom as i128 + config.gap_between_paddle_and_bricks as i128
        + (config.brick_height / 2) as i128;
    let pitch_x: i128 = config.brick_width as i128 + config.gap_between_bricks as i128;
    let pitch_y: i128 = config.brick_height as i128 + config.gap_between_bricks as i128;
    let mut next_id: u64 = FIXED_COLLIDERS;
    let mut row: u64 = 0;
    while row < rows
        invariant
            config.wf(),
            rows == config.brick_rows(),
            cols == config.brick_cols(),
            offset_x == config.brick_x(0),
            offset_y == config.brick_y(0),
            pitch_x == config.pitch_x(),
            pitch_y == config.pitch_y(),
            0 <= row <= rows,
            next_id == FIXED_COLLIDERS + row * cols,
            colliders@.len() == next_id,
            forall|k: int|
                0 <= k < colliders@.len() ==> #[trigger] colliders@[k] == initial_collider(config, k),
        decreases rows - row,
    {
        let mut col: u64 = 0;
        while col < cols
            invariant
                config.wf(),
                rows == config.brick_rows(),
                cols == config.brick_cols(),
                offset_x == config.brick_x(0),
                offset_y == config.brick_y(0),
                pitch_x == config.pitch_x(),
                pitch_y == config.pitch_y(),
                0 <= row < rows,
                0 <= col <= cols,
                next_id == FIXED_COLLIDERS + row * cols + col,
                colliders@.len() == next_id,
                forall|k: int|
                    0 <= k < colliders@.len() ==> #[trigger] colliders@[k] == initial_collider(
                        config,
                        k,
                    ),
            decreases cols - col,
        {
            proof {
                lemma_brick_place(config, row as int, col as int);
            }
            let x: i128 = offset_x + (col as i128) * pitch_x;
            let y: i128 = offset_y + (row as i128) * pitch_y;
            let brick = Collider {
                id: next_id,
                rect: Rect { x: x as i64, y: y as i64, w: config.brick_width, h: config.brick_height },
                kind: Kind::Brick,
            };
            assert(brick == initial_brick(config, row * cols + col));
            colliders.push(brick);
            next_id = next_id + 1;
            col = col + 1;
        }
        assert(row * cols + cols == (row + 1) * cols) by (nonlinear_arith);
        row = row + 1;
    }
    assert(colliders@ =~= initial_colliders(config));
    let session = Session {
        config,
        ball: Ball { rect: config.ball_start, velocity: config.ball_velocity },
        colliders,
        score: Scoreboard::new(),
    };
    assert(session.colliders_wf()) by {
        let cs = session.colliders@;
        assert forall|k: int| 0 <= k < cs.len() implies (#[trigger] cs[k]).id == k && cs[k].rect.wf()
            && (cs[k].kind == Kind::Paddle <==> k == 0) by {
            assert(cs[k] == initial_collider(config, k));
        }
    }
    Some(session)
}

} // verus!
