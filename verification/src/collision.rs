//! The collision pass: the ball is tested against every obstacle once, each
//! hit reflects it under a directional guard, and each brick that is hit is
//! destroyed and scored.

use vstd::prelude::*;
use crate::geometry::{classify, classify_overlap, overlaps, Rect, Side};
use crate::motion::{Ball, Velocity};
use crate::scoreboard::{lemma_wrapped_step, wrapped, Scoreboard};

verus! {

/// What an obstacle is.
#[derive(Clone, Copy, Debug, PartialEq, Eq, Structural)]
pub enum Kind {
    Paddle,
    Wall,
    Brick,
}

/// Something the ball can hit, with the identifier it keeps for life.
#[derive(Clone, Copy, Debug, PartialEq, Eq, Structural)]
pub struct Collider {
    pub id: u64,
    pub rect: Rect,
    pub kind: Kind,
}

/// The velocity after a hit on `side`. A component is negated only while the
/// ball still moves into the face it struck; a ball already leaving, or one
/// that is inside the obstacle, keeps its velocity.
pub open spec fn reflected(v: Velocity, side: Side) -> Velocity {
    match side {
        Side::Left => if v.x > 0 {
            Velocity { x: (-v.x) as i64, y: v.y }
        } else {
            v
        },
        Side::Right => if v.x < 0 {
            Velocity { x: (-v.x) as i64, y: v.y }
        } else {
            v
        },
        Side::Top => if v.y < 0 {
            Velocity { x: v.x, y: (-v.y) as i64 }
        } else {
            v
        },
        Side::Bottom => if v.y > 0 {
            Velocity { x: v.x, y: (-v.y) as i64 }
        } else {
            v
        },
        Side::Inside => v,
    }
}

/// The ball does not move into the face `side` of an obstacle.
pub open spec fn moving_away(v: Velocity, side: Side) -> bool {
    match side {
        Side::Left => v.x <= 0,
        Side::Right => v.x >= 0,
        Side::Top => v.y >= 0,
        Side::Bottom => v.y <= 0,
        Side::Inside => true,
    }
}

/// The velocity after the ball at `ball` has been tested against one
/// obstacle.
pub open spec fn bounced(v: Velocity, ball: Rect, obstacle: Rect) -> Velocity {
    match classify(ball, obstacle) {
        Some(side) => reflected(v, side),
        None => v,
    }
}

/// The velocity after the ball at `ball` has been tested against every
/// obstacle of `cs`, first to last.
pub open spec fn velocity_after(v: Velocity, ball: Rect, cs: Seq<Collider>) -> Velocity
    decreases cs.len(),
{
    if cs.len() == 0 {
        v
    } else {
        bounced(velocity_after(v, ball, cs.drop_last()), ball, cs.last().rect)
    }
}

/// Selects the bricks that the ball at `ball` overlaps.
pub open spec fn is_hit_brick(ball: Rect) -> spec_fn(Collider) -> bool {
    |c: Collider| c.kind == Kind::Brick && overlaps(ball, c.rect)
}

/// Selects every obstacle but the bricks that the ball at `ball` overlaps.
pub open spec fn outlasts(ball: Rect) -> spec_fn(Collider) -> bool {
    |c: Collider| !(c.kind == Kind::Brick && overlaps(ball, c.rect))
}

/// The obstacles left after a pass, in their old order.
pub open spec fn survivors(ball: Rect, cs: Seq<Collider>) -> Seq<Collider> {
    cs.filter(outlasts(ball))
}

/// The bricks destroyed by a pass, in their old order.
pub open spec fn destroyed(ball: Rect, cs: Seq<Collider>) -> Seq<Collider> {
    cs.filter(is_hit_brick(ball))
}

/// The identifiers of `cs`, in order.
pub open spec fn ids(cs: Seq<Collider>) -> Seq<u64> {
    cs.map_values(|c: Collider| c.id)
}

/// Reflects the velocity for a hit on `side`, under the directional guard.
pub fn reflect(v: Velocity, side: Side) -> (r: Velocity)
    requires
        v.wf(),
    ensures
        r == reflected(v, side),
        r.wf(),
        r.speed_squared() == v.speed_squared(),
        moving_away(r, side),
{
    proof {
        lemma_reflection_keeps_speed(v, side);
    }
    match side {
        Side::Left => if v.x > 0 {
            Velocity { x: -v.x, y: v.y }
        } else {
            v
        },
        Side::Right => if v.x < 0 {
            Velocity { x: -v.x, y: v.y }
        } else {
            v
        },
        Side::Top => if v.y < 0 {
            Velocity { x: v.x, y: -v.y }
        } else {
            v
        },
        Side::Bottom => if v.y > 0 {
            Velocity { x: v.x, y: -v.y }
        } else {
            v
        },
        Side::Inside => v,
    }
}

/// Runs one collision pass. The ball is tested against every obstacle once,
/// in order, and reflected for each hit. Every brick that is hit leaves
/// `colliders` and adds one to the score; its identifier is handed back.
pub fn check_ball_collisions(
    ball: &mut Ball,
    colliders: &mut Vec<Collider>,
    score: &mut Scoreboard,
) -> (gone: Vec<u64>)
    requires
        old(ball).velocity.wf(),
    ensures
        final(ball).rect == old(ball).rect,
        final(ball).velocity == velocity_after(
            old(ball).velocity,
            old(ball).rect,
            old(colliders)@,
        ),
        final(ball).velocity.wf(),
        final(ball).velocity.speed_squared() == old(ball).velocity.speed_squared(),
        final(colliders)@ == survivors(old(ball).rect, old(colliders)@),
        gone@ == ids(destroyed(old(ball).rect, old(colliders)@)),
        final(colliders)@.len() + gone@.len() == old(colliders)@.len(),
        final(score).score == wrapped(old(score).score + gone@.len()),
{
    let ghost cs = colliders@;
    let ghost v0 = ball.velocity;
    let ghost s0 = score.score;
    let rect = ball.rect;
    let mut v = ball.velocity;
    let mut kept: Vec<Collider> = Vec::new();
    let mut gone: Vec<u64> = Vec::new();
    let n = colliders.len();
    let mut i: usize = 0;
    proof {
        assert(cs.take(0) =~= Seq::<Collider>::empty());
        assert(ids(destroyed(rect, cs.take(0))) =~= Seq::<u64>::empty());
    }
    while i < n
        invariant
            0 <= i <= n,
            n == cs.len(),
            colliders@ == cs,
            v0.wf(),
            v == velocity_after(v0, rect, cs.take(i as int)),
            v.wf(),
            v.speed_squared() == v0.speed_squared(),
            kept@ == survivors(rect, cs.take(i as int)),
            gone@ == ids(destroyed(rect, cs.take(i as int))),
            kept@.len() + gone@.len() == i,
            score.score == wrapped(s0 + gone@.len()),
        decreases n - i,
    {
        let c = colliders[i];
        let ghost before = cs.take(i as int);
        let ghost upto = cs.take(i as int + 1);
        proof {
            assert(upto =~= before.push(c));
            assert(upto.drop_last() =~= before);
            assert(upto.last() == c);
            Seq::lemma_filter_push(before, c, outlasts(rect));
            Seq::lemma_filter_push(before, c, is_hit_brick(rect));
        }
        let hit = classify_overlap(rect, c.rect);
        let mut struck = false;
        match hit {
            Some(side) => {
                v = reflect(v, side);
                struck = true;
            },
            None => {},
        }
        let is_brick = match c.kind {
            Kind::Brick => true,
            _ => false,
        };
        if struck && is_brick {
            proof {
                lemma_wrapped_step(s0 as int, gone@.len() as int);
                assert(ids(destroyed(rect, before).push(c)) =~= ids(destroyed(rect, before)).push(
                    c.id,
                ));
            }
            gone.push(c.id);
            score.increment();
        } else {
            kept.push(c);
        }
        i = i + 1;
    }
    proof {
        assert(cs.take(n as int) =~= cs);
    }
    ball.velocity = v;
    *colliders = kept;
    gone
}

/// A reflection only ever negates a component: the speed is unchanged, the
/// result can be reflected again, and it no longer moves into the face.
pub proof fn lemma_reflection_keeps_speed(v: Velocity, side: Side)
    requires
        v.wf(),
    ensures
        reflected(v, side).wf(),
        reflected(v, side).speed_squared() == v.speed_squared(),
        reflected(v, side).is_moving() == v.is_moving(),
        moving_away(reflected(v, side), side),
{
    assert((-v.x) * (-v.x) == v.x * v.x) by (nonlinear_arith);
    assert((-v.y) * (-v.y) == v.y * v.y) by (nonlinear_arith);
}

/// A second hit on the same face changes nothing: once reflected, the ball
/// moves away from the face and the guard holds it there.
pub proof fn lemma_reflection_idempotent(v: Velocity, side: Side)
    requires
        v.wf(),
    ensures
        moving_away(v, side) ==> reflected(v, side) == v,
        reflected(reflected(v, side), side) == reflected(v, side),
{
}

/// A whole pass keeps the speed of the ball, whatever it hits: each axis
/// keeps its magnitude, and a moving ball stays in motion.
pub proof fn lemma_pass_keeps_speed(v: Velocity, ball: Rect, cs: Seq<Collider>)
    requires
        v.wf(),
    ensures
        velocity_after(v, ball, cs).wf(),
        velocity_after(v, ball, cs).speed_squared() == v.speed_squared(),
        velocity_after(v, ball, cs).is_moving() == v.is_moving(),
    decreases cs.len(),
{
    if cs.len() > 0 {
        lemma_pass_keeps_speed(v, ball, cs.drop_last());
        let before = velocity_after(v, ball, cs.drop_last());
        match classify(ball, cs.last().rect) {
            Some(side) => {
                lemma_reflection_keeps_speed(before, side);
            },
            None => {},
        }
    }
}

/// The sign that a pass forces on the x component: negative where the last
/// hit on a vertical face was on a left face, positive where it was on a
/// right face, zero where no vertical face was hit.
pub open spec fn x_turn(ball: Rect, cs: Seq<Collider>) -> int
    decreases cs.len(),
{
    if cs.len() == 0 {
        0
    } else {
        match classify(ball, cs.last().rect) {
            Some(Side::Left) => -1,
            Some(Side::Right) => 1,
            _ => x_turn(ball, cs.drop_last()),
        }
    }
}

/// The sign that a pass forces on the y component: positive where the last
/// hit on a horizontal face was on a top face, negative where it was on a
/// bottom face, zero where no horizontal face was hit.
pub open spec fn y_turn(ball: Rect, cs: Seq<Collider>) -> int
    decreases cs.len(),
{
    if cs.len() == 0 {
        0
    } else {
        match classify(ball, cs.last().rect) {
            Some(Side::Top) => 1,
            Some(Side::Bottom) => -1,
            _ => y_turn(ball, cs.drop_last()),
        }
    }
}

/// A component with its magnitude kept and its sign forced by `turn`, or
/// left alone where `turn` is zero.
pub open spec fn turned(component: int, turn: int) -> int {
    let magnitude = if component < 0 {
        -component
    } else {
        component
    };
    if turn == 0 {
        component
    } else if turn < 0 {
        -magnitude
    } else {
        magnitude
    }
}

/// The outcome of a pass in closed form: on each axis only the last face
/// that was hit matters, and it decides the sign alone.
pub proof fn lemma_pass_outcome(v: Velocity, ball: Rect, cs: Seq<Collider>)
    requires
        v.wf(),
    ensures
        velocity_after(v, ball, cs).x == turned(v.x as int, x_turn(ball, cs)),
        velocity_after(v, ball, cs).y == turned(v.y as int, y_turn(ball, cs)),
    decreases cs.len(),
{
    if cs.len() > 0 {
        lemma_pass_outcome(v, ball, cs.drop_last());
        lemma_pass_keeps_speed(v, ball, cs.drop_last());
    }
}

/// Running the pass again over the same obstacles, with the ball where it
/// was, leaves the velocity as the first pass set it: an embedded ball does
/// not oscillate.
pub proof fn lemma_pass_idempotent(v: Velocity, ball: Rect, cs: Seq<Collider>)
    requires
        v.wf(),
    ensures
        velocity_after(velocity_after(v, ball, cs), ball, cs) == velocity_after(v, ball, cs),
{
    let once = velocity_after(v, ball, cs);
    lemma_pass_keeps_speed(v, ball, cs);
    lemma_pass_outcome(v, ball, cs);
    lemma_pass_outcome(once, ball, cs);
}

/// Filtering keeps a sequence whole where every element is selected.
proof fn lemma_filter_keeps_all(s: Seq<Collider>, keep: spec_fn(Collider) -> bool)
    requires
        forall|j: int| 0 <= j < s.len() ==> keep(#[trigger] s[j]),
    ensures
        s.filter(keep) == s,
    decreases s.len(),
{
    if s.len() == 0 {
        assert(s.filter(keep) =~= s);
    } else {
        let init = s.drop_last();
        assert forall|j: int| 0 <= j < init.len() implies keep(#[trigger] init[j]) by {
            assert(init[j] == s[j]);
        }
        lemma_filter_keeps_all(init, keep);
        assert(s =~= init.push(s.last()));
        Seq::lemma_filter_push(init, s.last(), keep);
    }
}

/// Filtering leaves nothing where no element is selected.
proof fn lemma_filter_keeps_none(s: Seq<Collider>, keep: spec_fn(Collider) -> bool)
    requires
        forall|j: int| 0 <= j < s.len() ==> !keep(#[trigger] s[j]),
    ensures
        s.filter(keep) == Seq::<Collider>::empty(),
    decreases s.len(),
{
    if s.len() == 0 {
        assert(s.filter(keep) =~= s);
    } else {
        let init = s.drop_last();
        assert forall|j: int| 0 <= j < init.len() implies !keep(#[trigger] init[j]) by {
            assert(init[j] == s[j]);
        }
        lemma_filter_keeps_none(init, keep);
        assert(s =~= init.push(s.last()));
        Seq::lemma_filter_push(init, s.last(), keep);
    }
}

/// Filtering removes the one element at `i` where it alone is not selected.
proof fn lemma_filter_drops_one(s: Seq<Collider>, keep: spec_fn(Collider) -> bool, i: int)
    requires
        0 <= i < s.len(),
        !keep(s[i]),
        forall|j: int| 0 <= j < s.len() && j != i ==> keep(#[trigger] s[j]),
    ensures
        s.filter(keep) == s.remove(i),
{
    let head = s.take(i);
    let rest = s.skip(i + 1);
    assert forall|j: int| 0 <= j < head.len() implies keep(#[trigger] head[j]) by {
        assert(head[j] == s[j]);
    }
    assert forall|j: int| 0 <= j < rest.len() implies keep(#[trigger] rest[j]) by {
        assert(rest[j] == s[j + i + 1]);
    }
    lemma_filter_keeps_all(head, keep);
    lemma_filter_keeps_all(rest, keep);
    Seq::lemma_filter_push(head, s[i], keep);
    Seq::filter_distributes_over_add(head.push(s[i]), rest, keep);
    assert(s =~= head.push(s[i]) + rest);
    assert(s.remove(i) =~= head + rest);
}

/// Filtering leaves the one element at `i` where it alone is selected.
proof fn lemma_filter_picks_one(s: Seq<Collider>, keep: spec_fn(Collider) -> bool, i: int)
    requires
        0 <= i < s.len(),
        keep(s[i]),
        forall|j: int| 0 <= j < s.len() && j != i ==> !keep(#[trigger] s[j]),
    ensures
        s.filter(keep) == seq![s[i]],
{
    let head = s.take(i);
    let rest = s.skip(i + 1);
    assert forall|j: int| 0 <= j < head.len() implies !keep(#[trigger] head[j]) by {
        assert(head[j] == s[j]);
    }
    assert forall|j: int| 0 <= j < rest.len() implies !keep(#[trigger] rest[j]) by {
        assert(rest[j] == s[j + i + 1]);
    }
    lemma_filter_keeps_none(head, keep);
    lemma_filter_keeps_none(rest, keep);
    Seq::lemma_filter_push(head, s[i], keep);
    Seq::filter_distributes_over_add(head.push(s[i]), rest, keep);
    assert(s =~= head.push(s[i]) + rest);
    assert(head.push(s[i]).filter(keep) + rest.filter(keep) =~= seq![s[i]]);
}

/// Where the ball overlaps exactly one brick, the pass removes that brick
/// and nothing else, however many other obstacles it tests, and the score
/// goes up by one.
pub proof fn lemma_single_brick(ball: Rect, cs: Seq<Collider>, i: int, score: u64)
    requires
        0 <= i < cs.len(),
        is_hit_brick(ball)(cs[i]),
        forall|j: int| 0 <= j < cs.len() && j != i ==> !is_hit_brick(ball)(#[trigger] cs[j]),
    ensures
        survivors(ball, cs) == cs.remove(i),
        survivors(ball, cs).len() == cs.len() - 1,
        destroyed(ball, cs) == seq![cs[i]],
        ids(destroyed(ball, cs)) == seq![cs[i].id],
        score < u64::MAX ==> wrapped(score + ids(destroyed(ball, cs)).len()) == score + 1,
{
    assert forall|j: int| 0 <= j < cs.len() && j != i implies outlasts(ball)(#[trigger] cs[j]) by {
        assert(!is_hit_brick(ball)(cs[j]));
    }
    lemma_filter_drops_one(cs, outlasts(ball), i);
    lemma_filter_picks_one(cs, is_hit_brick(ball), i);
    assert(ids(seq![cs[i]]) =~= seq![cs[i].id]);
}

/// A pass removes exactly the bricks it destroys: no obstacle is lost or
/// counted twice, and walls and the paddle always stay.
pub proof fn lemma_pass_partitions(ball: Rect, cs: Seq<Collider>)
    ensures
        survivors(ball, cs).len() + destroyed(ball, cs).len() == cs.len(),
        forall|j: int|
            0 <= j < cs.len() && cs[j].kind != Kind::Brick ==> survivors(ball, cs).contains(
                #[trigger] cs[j],
            ),
        forall|k: int|
            0 <= k < destroyed(ball, cs).len() ==> (#[trigger] destroyed(ball, cs)[k]).kind
                == Kind::Brick && overlaps(ball, destroyed(ball, cs)[k].rect),
    decreases cs.len(),
{
    if cs.len() == 0 {
        assert(survivors(ball, cs) =~= cs);
        assert(destroyed(ball, cs) =~= cs);
    } else {
        let init = cs.drop_last();
        lemma_pass_partitions(ball, init);
        assert(cs =~= init.push(cs.last()));
        Seq::lemma_filter_push(init, cs.last(), outlasts(ball));
        Seq::lemma_filter_push(init, cs.last(), is_hit_brick(ball));
        assert forall|j: int| 0 <= j < cs.len() && cs[j].kind != Kind::Brick implies survivors(
            ball,
            cs,
        ).contains(#[trigger] cs[j]) by {
            if j < init.len() {
                assert(init[j] == cs[j]);
                let at = choose|at: int|
                    0 <= at < survivors(ball, init).len() && survivors(ball, init)[at] == cs[j];
                assert(survivors(ball, cs)[at] == cs[j]);
            } else {
                assert(survivors(ball, cs).last() == cs[j]);
            }
        }
    }
}

/// The identifiers grow along the sequence, so no two obstacles share one.
pub open spec fn ascending(cs: Seq<Collider>) -> bool {
    forall|i: int, j: int| 0 <= i < j < cs.len() ==> (#[trigger] cs[i]).id < (#[trigger] cs[j]).id
}

/// A pass invents nothing and reorders nothing: every survivor stood in the
/// old sequence, identifiers that grew along it still grow, and a first
/// obstacle that survives is still the first.
pub proof fn lemma_survivors_keep_order(ball: Rect, cs: Seq<Collider>)
    ensures
        forall|k: int|
            0 <= k < survivors(ball, cs).len() ==> cs.contains(#[trigger] survivors(ball, cs)[k]),
        ascending(cs) ==> ascending(survivors(ball, cs)),
        cs.len() > 0 && outlasts(ball)(cs[0]) ==> survivors(ball, cs).len() > 0 && survivors(
            ball,
            cs,
        )[0] == cs[0],
    decreases cs.len(),
{
    let out = survivors(ball, cs);
    if cs.len() == 0 {
        assert(out =~= cs);
    } else {
        let init = cs.drop_last();
        let last = cs.last();
        let inner = survivors(ball, init);
        lemma_survivors_keep_order(ball, init);
        assert(cs =~= init.push(last));
        Seq::lemma_filter_push(init, last, outlasts(ball));
        assert forall|k: int| 0 <= k < out.len() implies cs.contains(#[trigger] out[k]) by {
            if k < inner.len() {
                assert(out[k] == inner[k]);
                assert(init.contains(inner[k]));
                let j = choose|j: int| 0 <= j < init.len() && init[j] == inner[k];
                assert(cs[j] == out[k]);
            } else {
                assert(out[k] == last);
                assert(cs[cs.len() - 1] == out[k]);
            }
        }
        if ascending(cs) {
            assert(ascending(init)) by {
                assert forall|i: int, j: int| 0 <= i < j < init.len() implies (#[trigger] init[i]).id
                    < (#[trigger] init[j]).id by {
                    assert(init[i] == cs[i] && init[j] == cs[j]);
                }
            }
            assert forall|i: int, j: int| 0 <= i < j < out.len() implies (#[trigger] out[i]).id < (
            #[trigger] out[j]).id by {
                if j < inner.len() {
                    assert(out[i] == inner[i] && out[j] == inner[j]);
                } else {
                    assert(out[j] == last);
                    assert(out[i] == inner[i]);
                    assert(init.contains(inner[i]));
                    let m = choose|m: int| 0 <= m < init.len() && init[m] == inner[i];
                    assert(cs[m] == out[i]);
                    assert(cs[cs.len() - 1] == last);
                }
            }
        }
        if outlasts(ball)(cs[0]) {
            if init.len() > 0 {
                assert(init[0] == cs[0]);
                assert(out[0] == inner[0]);
            } else {
                assert(inner =~= init);
            }
        }
    }
}

/// The ball after one tick for each entry of `passes`, first to last: in
/// each tick it flies for `dt` quanta and is then tested against the
/// obstacles that stand in that tick.
pub open spec fn ball_after_ticks(ball: Ball, dt: u32, passes: Seq<Seq<Collider>>) -> Ball
    decreases passes.len(),
{
    if passes.len() == 0 {
        ball
    } else {
        let arrived = ball_after_ticks(ball, dt, passes.drop_last()).flown(dt);
        Ball {
            rect: arrived.rect,
            velocity: velocity_after(arrived.velocity, arrived.rect, passes.last()),
        }
    }
}

/// The speed of the ball is conserved: over any number of ticks, whatever
/// obstacles stand in each of them, bounces change the direction of the
/// ball and never its speed or its size.
pub proof fn lemma_speed_is_conserved(ball: Ball, dt: u32, passes: Seq<Seq<Collider>>)
    requires
        ball.velocity.wf(),
    ensures
        ball_after_ticks(ball, dt, passes).velocity.wf(),
        ball_after_ticks(ball, dt, passes).velocity.speed_squared()
            == ball.velocity.speed_squared(),
        ball_after_ticks(ball, dt, passes).velocity.is_moving() == ball.velocity.is_moving(),
        ball_after_ticks(ball, dt, passes).rect.w == ball.rect.w,
        ball_after_ticks(ball, dt, passes).rect.h == ball.rect.h,
    decreases passes.len(),
{
    if passes.len() > 0 {
        lemma_speed_is_conserved(ball, dt, passes.drop_last());
        let arrived = ball_after_ticks(ball, dt, passes.drop_last()).flown(dt);
        lemma_pass_keeps_speed(arrived.velocity, arrived.rect, passes.last());
    }
}

} // verus!
