//! Spatial primitives: positions, the square hitbox overlap test, and
//! integer steering (displacement toward a target at a fixed speed).

use vstd::prelude::*;

verus! {

/// Coordinates are plain integers in milli-units (one thousandth of a world
/// unit). Every position the simulation handles stays inside this bound.
pub const WORLD_BOUND: i64 = 1_000_000_000_000;

/// Largest half-size a hitbox may have, in milli-units.
pub const MAX_HALF_SIZE: i64 = 1_000_000_000;

/// Largest per-tick displacement magnitude, in milli-units.
pub const MAX_SPEED: i64 = 1_000_000;

/// A point in the plane, in milli-units.
#[derive(Clone, Copy, PartialEq, Eq, Structural, Debug)]
pub struct Pos {
    pub x: i64,
    pub y: i64,
}

pub open spec fn iabs(v: int) -> int {
    if v < 0 { -v } else { v }
}

pub open spec fn in_world(p: Pos) -> bool {
    &&& -WORLD_BOUND <= p.x <= WORLD_BOUND
    &&& -WORLD_BOUND <= p.y <= WORLD_BOUND
}

pub open spec fn valid_half(h: i64) -> bool {
    0 <= h <= MAX_HALF_SIZE
}

/// Two centered axis-aligned squares overlap iff on both axes the distance
/// between the centers is strictly below the sum of the two half-sizes, so
/// squares that merely touch do not collide.
pub open spec fn spec_overlaps(a: Pos, ha: i64, b: Pos, hb: i64) -> bool {
    &&& iabs(a.x - b.x) < ha + hb
    &&& iabs(a.y - b.y) < ha + hb
}

/// The square hitbox proximity test used by every collision scan.
pub fn overlaps(a: Pos, ha: i64, b: Pos, hb: i64) -> (r: bool)
    requires
        in_world(a),
        in_world(b),
        valid_half(ha),
        valid_half(hb),
    ensures
        r == spec_overlaps(a, ha, b, hb),
{
    let dist = ha + hb;
    let dx = if a.x >= b.x { a.x - b.x } else { b.x - a.x };
    let dy = if a.y >= b.y { a.y - b.y } else { b.y - a.y };
    dx < dist && dy < dist
}

/// Overlap does not depend on the order of the two hitboxes.
pub proof fn lemma_overlaps_symmetric(a: Pos, ha: i64, b: Pos, hb: i64)
    ensures
        spec_overlaps(a, ha, b, hb) == spec_overlaps(b, hb, a, ha),
{
}

pub open spec fn clamp_coord(v: int) -> int {
    if v < -WORLD_BOUND {
        -(WORLD_BOUND as int)
    } else if v > WORLD_BOUND {
        WORLD_BOUND as int
    } else {
        v
    }
}

/// One axis of a displacement of Manhattan length `speed` along the direction
/// `(dx, dy)`: the axis share is `|d| * speed / total`, carried with the sign
/// of `d`, where `total = |dx| + |dy|`.
pub open spec fn scaled_step(d: int, total: int, speed: int) -> int
    recommends
        1 <= total,
{
    let m = iabs(d) * speed / total;
    if d < 0 {
        -m
    } else {
        m
    }
}

proof fn lemma_scaled_step_bounded(d: int, total: int, speed: int)
    requires
        iabs(d) <= total,
        1 <= total,
        0 <= speed,
    ensures
        iabs(scaled_step(d, total, speed)) <= speed,
{
    let a = iabs(d);
    assert(a * speed <= total * speed) by (nonlinear_arith)
        requires 0 <= a <= total && 0 <= speed;
    vstd::arithmetic::div_mod::lemma_div_is_ordered(a * speed, total * speed, total);
    vstd::arithmetic::div_mod::lemma_div_by_multiple(speed, total);
    assert(a * speed / total <= speed);
    vstd::arithmetic::div_mod::lemma_div_pos_is_pos(a * speed, total);
}

/// A velocity of Manhattan magnitude `speed` pointing from the origin toward
/// `(dx, dy)`; a degenerate zero direction falls back to the positive x axis.
pub fn scale_dir(dx: i64, dy: i64, speed: i64) -> (v: (i64, i64))
    requires
        iabs(dx as int) <= 2 * WORLD_BOUND,
        iabs(dy as int) <= 2 * WORLD_BOUND,
        1 <= speed <= MAX_SPEED,
    ensures
        dx == 0 && dy == 0 ==> v == (speed, 0i64),
        !(dx == 0 && dy == 0) ==> {
            let total = iabs(dx as int) + iabs(dy as int);
            v.0 == scaled_step(dx as int, total, speed as int)
                && v.1 == scaled_step(dy as int, total, speed as int)
        },
        iabs(v.0 as int) <= speed,
        iabs(v.1 as int) <= speed,
{
    let adx = if dx >= 0 { dx } else { -dx };
    let ady = if dy >= 0 { dy } else { -dy };
    let total = adx + ady;
    if total == 0 {
        (speed, 0)
    } else {
        proof {
            lemma_scaled_step_bounded(dx as int, total as int, speed as int);
            lemma_scaled_step_bounded(dy as int, total as int, speed as int);
            assert(adx * speed <= 2 * WORLD_BOUND * MAX_SPEED) by (nonlinear_arith)
                requires 0 <= adx <= 2 * WORLD_BOUND && 0 <= speed <= MAX_SPEED;
            assert(ady * speed <= 2 * WORLD_BOUND * MAX_SPEED) by (nonlinear_arith)
                requires 0 <= ady <= 2 * WORLD_BOUND && 0 <= speed <= MAX_SPEED;
        }
        let mx = adx * speed / total;
        let my = ady * speed / total;
        let vx = if dx < 0 { -mx } else { mx };
        let vy = if dy < 0 { -my } else { my };
        (vx, vy)
    }
}

/// Clamps a coordinate to the world bound.
pub fn clamped(v: i64) -> (r: i64)
    ensures
        r as int == clamp_coord(v as int),
{
    if v < -WORLD_BOUND {
        -WORLD_BOUND
    } else if v > WORLD_BOUND {
        WORLD_BOUND
    } else {
        v
    }
}

/// The x coordinate after one step of Manhattan length `speed` from `from`
/// toward `to`, clamped to the world; a point at its target stays put.
pub open spec fn step_target_x(from: Pos, to: Pos, speed: int) -> int {
    if from == to {
        from.x as int
    } else {
        let dx = to.x - from.x;
        let total = iabs(to.x - from.x) + iabs(to.y - from.y);
        clamp_coord(from.x + scaled_step(dx, total, speed))
    }
}

/// The y coordinate after the same step.
pub open spec fn step_target_y(from: Pos, to: Pos, speed: int) -> int {
    if from == to {
        from.y as int
    } else {
        let dy = to.y - from.y;
        let total = iabs(to.x - from.x) + iabs(to.y - from.y);
        clamp_coord(from.y + scaled_step(dy, total, speed))
    }
}

/// Moves `from` one step of Manhattan length `speed` toward `to`, clamped to
/// the world; a point already at the target stays put.
pub fn step_toward(from: Pos, to: Pos, speed: i64) -> (r: Pos)
    requires
        in_world(from),
        in_world(to),
        1 <= speed <= MAX_SPEED,
    ensures
        in_world(r),
        r.x as int == step_target_x(from, to, speed as int),
        r.y as int == step_target_y(from, to, speed as int),
{
    let dx = to.x - from.x;
    let dy = to.y - from.y;
    if dx == 0 && dy == 0 {
        from
    } else {
        let adx = if dx >= 0 { dx } else { -dx };
        let ady = if dy >= 0 { dy } else { -dy };
        let total = adx + ady;
        proof {
            lemma_scaled_step_bounded(dx as int, total as int, speed as int);
            lemma_scaled_step_bounded(dy as int, total as int, speed as int);
            assert(adx * speed <= 2 * WORLD_BOUND * MAX_SPEED) by (nonlinear_arith)
                requires 0 <= adx <= 2 * WORLD_BOUND && 0 <= speed <= MAX_SPEED;
            assert(ady * speed <= 2 * WORLD_BOUND * MAX_SPEED) by (nonlinear_arith)
                requires 0 <= ady <= 2 * WORLD_BOUND && 0 <= speed <= MAX_SPEED;
        }
        let mx = adx * speed / total;
        let my = ady * speed / total;
        let sx = if dx < 0 { -mx } else { mx };
        let sy = if dy < 0 { -my } else { my };
        Pos { x: clamped(from.x + sx), y: clamped(from.y + sy) }
    }
}

/// Manhattan distance, the metric of the targeting search.
pub open spec fn spec_manhattan(a: Pos, b: Pos) -> int {
    iabs(a.x - b.x) + iabs(a.y - b.y)
}

pub fn manhattan(a: Pos, b: Pos) -> (r: i64)
    requires
        in_world(a),
        in_world(b),
    ensures
        r as int == spec_manhattan(a, b),
{
    let dx = if a.x >= b.x { a.x - b.x } else { b.x - a.x };
    let dy = if a.y >= b.y { a.y - b.y } else { b.y - a.y };
    dx + dy
}

} // verus!
