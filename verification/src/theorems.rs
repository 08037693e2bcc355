//! What holds of vehicles and projectiles across calls.
use vstd::prelude::*;
use crate::fixed::{
    lemma_scaled_bound, lemma_scaled_neg, lemma_toward_zero_at_least, lemma_toward_zero_neg,
    scaled_spec, ONE,
};
use crate::game::{Input, Session, Sprites};
use crate::object::{Bullet, Object, Sprite, Tank, BULLET_SPEED, MUZZLE_OFFSET};
use crate::transform::{Transform, Vec2};
use crate::trig::{
    cos_micro, lemma_atan2_range, lemma_heading_floor, lemma_sin_cos_range, lemma_unit_length,
    magnitude,
    sin_micro, FULL_TURN, HEADING_FLOOR,
};
use crate::turret::{angular_gap, lemma_track_converges, smaller, TURRET_RATE};

verus! {

/// Turning the hull to a given angle leaves the angle between turret and hull
/// as it was.
pub proof fn lemma_rot_to_keeps_turret_offset(t: Tank, r: i64)
    requires
        t.can_rot_to(r),
    ensures
        t.turned_to(r).turret.trans.rot - t.turned_to(r).hull.trans.rot == t.turret.trans.rot
            - t.hull.trans.rot,
{
}

/// The angle between where the turret faces and where it is asked to face.
pub open spec fn aim_gap(t: Tank) -> int {
    angular_gap(t.turret.trans.rot as int, t.aim())
}

/// With the aim point fixed and the turret angle within one turn, an update
/// leaves the aim and the range unchanged and closes the gap between turret
/// and aim by `TURRET_RATE * dt`, or entirely where the gap is no larger; once
/// the gap is zero the turret stays where it is.
pub proof fn lemma_turret_converges(t: Tank, dt: u32)
    requires
        0 <= t.turret.trans.rot < FULL_TURN,
    ensures
        t.updated(dt).aim() == t.aim(),
        0 <= t.updated(dt).turret.trans.rot < FULL_TURN,
        aim_gap(t.updated(dt)) == aim_gap(t) - smaller(TURRET_RATE * dt, aim_gap(t)),
        aim_gap(t) == 0 ==> t.updated(dt).turret.trans.rot == t.turret.trans.rot,
{
    lemma_atan2_range(
        -(t.point_to.x - t.hull.trans.pos.x),
        t.point_to.y - t.hull.trans.pos.y,
    );
    lemma_track_converges(t.turret.trans.rot as int, t.aim(), TURRET_RATE * dt);
}

/// The vehicle after `n` updates of `dt` each.
pub open spec fn after_updates(t: Tank, dt: u32, n: nat) -> Tank
    decreases n,
{
    if n == 0 {
        t
    } else {
        after_updates(t, dt, (n - 1) as nat).updated(dt)
    }
}

/// The larger of two numbers.
pub open spec fn larger(a: int, b: int) -> int {
    if a >= b {
        a
    } else {
        b
    }
}

/// With the aim point fixed and the turret angle within one turn, `n` updates
/// close the gap between turret and aim by `n` steps of `TURRET_RATE * dt`
/// until it is zero; from then on the turret does not move.
pub proof fn lemma_turret_settles(t: Tank, dt: u32, n: nat)
    requires
        0 <= t.turret.trans.rot < FULL_TURN,
    ensures
        after_updates(t, dt, n).aim() == t.aim(),
        0 <= after_updates(t, dt, n).turret.trans.rot < FULL_TURN,
        aim_gap(after_updates(t, dt, n)) == larger(0, aim_gap(t) - n * (TURRET_RATE * dt)),
        n * (TURRET_RATE * dt) >= aim_gap(t) ==> after_updates(t, dt, n + 1).turret.trans.rot
            == after_updates(t, dt, n).turret.trans.rot,
    decreases n,
{
    let step: int = TURRET_RATE * dt;
    assert(step >= 0);
    lemma_atan2_range(
        -(t.point_to.x - t.hull.trans.pos.x),
        t.point_to.y - t.hull.trans.pos.y,
    );
    lemma_track_converges(t.turret.trans.rot as int, t.aim(), step);
    if n > 0 {
        let m = (n - 1) as nat;
        lemma_turret_settles(t, dt, m);
        lemma_turret_converges(after_updates(t, dt, m), dt);
        assert(n * step == m * step + step) by (nonlinear_arith)
            requires
                n == m + 1,
        ;
        assert(m * step >= 0) by (nonlinear_arith)
            requires
                m >= 0,
                step >= 0,
        ;
    }
    lemma_turret_converges(after_updates(t, dt, n), dt);
    assert(after_updates(t, dt, n + 1) == after_updates(t, dt, n).updated(dt));
}

/// A sound vehicle stays sound under every operation of a vehicle.
pub proof fn lemma_tank_stays_valid(
    t: Tank,
    v: Vec2,
    r: i64,
    d: i64,
    dt: u32,
    hull: Sprite,
    turret: Sprite,
)
    requires
        t.valid(),
    ensures
        Tank::new_spec().valid(),
        t.moved(v).valid(),
        t.moved_to(v).valid(),
        t.turned(r).valid(),
        t.turned_to(r).valid(),
        t.advanced(d).valid(),
        t.updated(dt).valid(),
        t.synced().valid(),
        t.aimed(dt).valid(),
        t.dressed(hull, turret).valid(),
        t.wrecked(hull, turret).valid(),
        (Tank { point_to: v, ..t }).valid(),
{
}

/// A session starts with sound vehicles and keeps them sound through
/// loading, input and ticks.
pub proof fn lemma_session_stays_valid(s: Session, sprites: Sprites, inp: Input, dt: u32)
    requires
        s.valid(),
    ensures
        Session::start().valid(),
        s.on_load_spec(sprites).valid(),
        s.on_input_spec(inp).valid(),
        s.on_update_spec(dt).valid(),
{
}

/// A point on the hull's own position is in the collision box of a sound
/// vehicle, whatever the box's size.
pub proof fn lemma_hull_position_collides(t: Tank)
    requires
        t.valid(),
    ensures
        t.hit_by(t.hull.trans.pos),
{
}

/// A point farther from the hull than the half extent along either axis is
/// outside the collision box.
pub proof fn lemma_far_point_misses(t: Tank, pt: Vec2)
    requires
        magnitude(pt.x - t.hull.trans.pos.x) > t.collider.half_extents.x || magnitude(
            pt.y - t.hull.trans.pos.y,
        ) > t.collider.half_extents.y,
    ensures
        !t.hit_by(pt),
{
}

/// The square of the distance between two points.
pub open spec fn dist_sq(a: Vec2, b: Vec2) -> int {
    (a.x - b.x) * (a.x - b.x) + (a.y - b.y) * (a.y - b.y)
}

/// Whether the projectile lies ahead of `origin` along its own heading: its
/// offset from `origin` points, along each axis, the way the heading does.
pub open spec fn recedes_from(b: Bullet, origin: Vec2) -> bool {
    &&& (b.bullet.trans.pos.x - origin.x) * b.bullet.trans.heading_x() >= 0
    &&& (b.bullet.trans.pos.y - origin.y) * b.bullet.trans.heading_y() >= 0
}

/// Along one axis: a step of `d > 0` scaled by the heading component `h`
/// has the sign of `h`, so an offset of that sign grows in magnitude.
proof fn lemma_axis_recedes(off: int, d: int, h: int)
    requires
        d > 0,
        -ONE <= h <= ONE,
        off * h >= 0,
    ensures
        (off + scaled_spec(d, h)) * h >= 0,
        (off + scaled_spec(d, h)) * (off + scaled_spec(d, h)) >= off * off,
        scaled_spec(d, h) != 0 ==> (off + scaled_spec(d, h)) * (off + scaled_spec(d, h)) > off
            * off,
{
    let s = scaled_spec(d, h);
    lemma_scaled_bound(d, h);
    assert(d * h >= 0 <==> h >= 0) by (nonlinear_arith)
        requires
            d > 0,
    ;
    assert(d * h <= 0 <==> h <= 0) by (nonlinear_arith)
        requires
            d > 0,
    ;
    if h > 0 {
        assert(off >= 0) by (nonlinear_arith)
            requires
                off * h >= 0,
                h > 0,
        ;
        assert((off + s) * h >= 0 && (off + s) * (off + s) >= off * off && (s != 0 ==> (off + s)
            * (off + s) > off * off)) by (nonlinear_arith)
            requires
                off >= 0,
                s >= 0,
                h > 0,
        ;
    } else if h < 0 {
        assert(off <= 0) by (nonlinear_arith)
            requires
                off * h >= 0,
                h < 0,
        ;
        assert((off + s) * h >= 0 && (off + s) * (off + s) >= off * off && (s != 0 ==> (off + s)
            * (off + s) > off * off)) by (nonlinear_arith)
            requires
                off <= 0,
                s <= 0,
                h < 0,
        ;
    } else {
        assert(s == 0);
        assert((off + s) * h >= 0) by (nonlinear_arith)
            requires
                h == 0,
        ;
    }
}

/// A step of at least one unit of distance per unit of heading does not
/// vanish where the heading component is at least `HEADING_FLOOR` in
/// magnitude.
proof fn lemma_step_not_lost(d: int, h: int)
    requires
        d >= 2,
        -ONE <= h <= ONE,
        magnitude(h) >= HEADING_FLOOR,
    ensures
        scaled_spec(d, h) != 0,
{
    if h > 0 {
        assert(d * h >= 1 * ONE) by (nonlinear_arith)
            requires
                d >= 2,
                h >= HEADING_FLOOR,
        ;
        lemma_toward_zero_at_least(d * h, ONE as int, 1);
    } else {
        assert(-(d * h) >= 1 * ONE) by (nonlinear_arith)
            requires
                d >= 2,
                -h >= HEADING_FLOOR,
        ;
        lemma_toward_zero_at_least(-(d * h), ONE as int, 1);
        lemma_toward_zero_neg(d * h, ONE as int);
    }
}

/// A transform moved `d > 0` ahead from `origin`-ward offset: both axes.
proof fn lemma_ahead_recedes(t: Transform, origin: Vec2, d: i64)
    requires
        d >= 2,
        t.can_fwd(d),
        (t.pos.x - origin.x) * t.heading_x() >= 0,
        (t.pos.y - origin.y) * t.heading_y() >= 0,
    ensures
        (t.fwd_spec(d).pos.x - origin.x) * t.heading_x() >= 0,
        (t.fwd_spec(d).pos.y - origin.y) * t.heading_y() >= 0,
        dist_sq(t.fwd_spec(d).pos, origin) > dist_sq(t.pos, origin),
{
    lemma_sin_cos_range(t.rot as int);
    lemma_heading_floor(t.rot as int);
    lemma_axis_recedes(t.pos.x - origin.x, d as int, t.heading_x());
    lemma_axis_recedes(t.pos.y - origin.y, d as int, t.heading_y());
    if magnitude(t.heading_x()) >= HEADING_FLOOR {
        lemma_step_not_lost(d as int, t.heading_x());
    } else {
        lemma_step_not_lost(d as int, t.heading_y());
    }
}

/// A projectile just fired lies ahead of the turret that fired it, at a
/// distance that is not zero.
pub proof fn lemma_fired_recedes(t: Tank, sprite: Sprite)
    requires
        t.can_fire(),
    ensures
        recedes_from(t.fired(sprite), t.turret.trans.pos),
        dist_sq(t.fired(sprite).bullet.trans.pos, t.turret.trans.pos) > 0,
{
    let b = t.breech();
    assert((b.pos.x - t.turret.trans.pos.x) * b.heading_x() == 0) by (nonlinear_arith)
        requires
            b.pos.x - t.turret.trans.pos.x == 0,
    ;
    assert((b.pos.y - t.turret.trans.pos.y) * b.heading_y() == 0) by (nonlinear_arith)
        requires
            b.pos.y - t.turret.trans.pos.y == 0,
    ;
    lemma_ahead_recedes(b, t.turret.trans.pos, MUZZLE_OFFSET);
}

/// While a projectile lies ahead of a point along its heading, every update
/// over a time that is not zero keeps it so and takes it strictly farther from
/// that point; so a fired projectile recedes from the turret's position at
/// firing on each tick that follows.
pub proof fn lemma_update_recedes(b: Bullet, origin: Vec2, dt: u32)
    requires
        dt > 0,
        b.can_update(dt),
        recedes_from(b, origin),
    ensures
        recedes_from(b.updated(dt), origin),
        dist_sq(b.updated(dt).bullet.trans.pos, origin) > dist_sq(b.bullet.trans.pos, origin),
{
    lemma_ahead_recedes(b.bullet.trans, origin, (BULLET_SPEED * dt) as i64);
}

/// The projectile after `n` updates of `dt` each.
pub open spec fn after_flight(b: Bullet, dt: u32, n: nat) -> Bullet
    decreases n,
{
    if n == 0 {
        b
    } else {
        after_flight(b, dt, (n - 1) as nat).updated(dt)
    }
}

/// A projectile fired from a turret is, after every further tick of a time
/// that is not zero, strictly farther from where the turret stood than it was
/// the tick before, as long as it stays within the coordinates.
pub proof fn lemma_flight_recedes(t: Tank, sprite: Sprite, dt: u32, n: nat)
    requires
        dt > 0,
        t.can_fire(),
        forall|k: nat| k <= n ==> (#[trigger] after_flight(t.fired(sprite), dt, k)).can_update(dt),
    ensures
        recedes_from(after_flight(t.fired(sprite), dt, n), t.turret.trans.pos),
        dist_sq(after_flight(t.fired(sprite), dt, n + 1).bullet.trans.pos, t.turret.trans.pos)
            > dist_sq(after_flight(t.fired(sprite), dt, n).bullet.trans.pos, t.turret.trans.pos),
    decreases n,
{
    let b = t.fired(sprite);
    let origin = t.turret.trans.pos;
    if n == 0 {
        lemma_fired_recedes(t, sprite);
    } else {
        let m = (n - 1) as nat;
        assert forall|k: nat| k <= m implies (#[trigger] after_flight(b, dt, k)).can_update(dt) by {
            assert(k <= n);
        }
        lemma_flight_recedes(t, sprite, dt, m);
        assert(after_flight(b, dt, m).can_update(dt));
        lemma_update_recedes(after_flight(b, dt, m), origin, dt);
    }
    assert(after_flight(b, dt, n).can_update(dt));
    lemma_update_recedes(after_flight(b, dt, n), origin, dt);
    assert(after_flight(b, dt, n + 1) == after_flight(b, dt, n).updated(dt));
}

/// Along one axis: whether the offset `off` is what `dist` along a heading
/// with component `h` comes to, short by less than `rounds` roundings.
pub open spec fn axis_flown(off: int, h: int, dist: int, rounds: int) -> bool {
    &&& h >= 0 ==> dist * h - rounds * ONE <= ONE * off <= dist * h && off >= 0
    &&& h <= 0 ==> dist * h <= ONE * off <= dist * h + rounds * ONE && off <= 0
}

/// Whether the projectile stands where a flight of `dist` from `origin` along
/// its heading takes it, each coordinate short by less than `rounds`
/// roundings of one millionth.
pub open spec fn flown_from(b: Bullet, origin: Vec2, dist: int, rounds: int) -> bool {
    &&& axis_flown(b.bullet.trans.pos.x - origin.x, b.bullet.trans.heading_x(), dist, rounds)
    &&& axis_flown(b.bullet.trans.pos.y - origin.y, b.bullet.trans.heading_y(), dist, rounds)
}

/// Along one axis, a further step of `d` adds `d` to the flight and one
/// rounding.
proof fn lemma_axis_step(off: int, h: int, dist: int, rounds: int, d: int)
    requires
        axis_flown(off, h, dist, rounds),
        d >= 0,
    ensures
        axis_flown(off + scaled_spec(d, h), h, dist + d, rounds + 1),
{
    let s = scaled_spec(d, h);
    assert((dist + d) * h == dist * h + d * h) by (nonlinear_arith);
    assert((rounds + 1) * ONE == rounds * ONE + ONE) by (nonlinear_arith);
    if h >= 0 {
        assert(d * h >= 0) by (nonlinear_arith)
            requires
                d >= 0,
                h >= 0,
        ;
    }
    if h <= 0 {
        assert(d * h <= 0) by (nonlinear_arith)
            requires
                d >= 0,
                h <= 0,
        ;
    }
}

/// Along one axis, the square of the offset against the square of the flight.
proof fn lemma_axis_square(off: int, h: int, dist: int, rounds: int)
    requires
        axis_flown(off, h, dist, rounds),
        dist >= 0,
        rounds >= 0,
    ensures
        (ONE * ONE) * (off * off) <= (dist * dist) * (h * h),
        (ONE * ONE) * (off * off) >= (dist * dist) * (h * h) - 2 * (rounds * ONE) * (dist
            * magnitude(h)),
{
    let g = magnitude(h);
    let u = ONE * magnitude(off);
    let w = dist * g;
    let k = rounds * ONE;
    assert(w >= 0 && k >= 0) by (nonlinear_arith)
        requires
            w == dist * g,
            k == rounds * ONE,
            dist >= 0,
            g >= 0,
            rounds >= 0,
    ;
    assert(dist * h == if h >= 0 {
        w
    } else {
        -w
    }) by (nonlinear_arith)
        requires
            w == dist * g,
            g == h || g == -h,
            h >= 0 ==> g == h,
            h < 0 ==> g == -h,
    ;
    assert(0 <= u <= w && u >= w - k);
    assert(u * u <= w * w) by (nonlinear_arith)
        requires
            0 <= u <= w,
    ;
    assert(u * u >= w * w - 2 * k * w) by (nonlinear_arith)
        requires
            0 <= u,
            0 <= w,
            0 <= k,
            u >= w - k,
    {
        if w >= k {
            assert(u * u >= (w - k) * (w - k));
            assert((w - k) * (w - k) == w * w - 2 * k * w + k * k);
        } else {
            assert(w * w - 2 * k * w <= 0);
        }
    }
    assert(u * u == (ONE * ONE) * (off * off)) by (nonlinear_arith)
        requires
            u == ONE * off || u == -(ONE * off),
    ;
    assert(w * w == (dist * dist) * (h * h)) by (nonlinear_arith)
        requires
            w == dist * h || w == -(dist * h),
    ;
    assert(2 * k * w == 2 * (rounds * ONE) * (dist * g));
}

/// A projectile that has flown `dist` from `origin` is no farther from it
/// than `dist`, and nearer by no more than a millionth of `dist` and two
/// millionths of a unit for each rounding: its distance `r` meets
/// `(1 - 2/ONE) dist^2 - 4 rounds dist <= r^2 <= dist^2`.
pub proof fn lemma_flown_distance(b: Bullet, origin: Vec2, dist: int, rounds: int)
    requires
        flown_from(b, origin, dist, rounds),
        dist >= 0,
        rounds >= 0,
    ensures
        dist_sq(b.bullet.trans.pos, origin) <= dist * dist,
        ONE * dist_sq(b.bullet.trans.pos, origin) >= (ONE - 2) * (dist * dist) - 4 * rounds * ONE
            * dist,
{
    lemma_offset_length(
        b.bullet.trans.pos.x - origin.x,
        b.bullet.trans.pos.y - origin.y,
        b.bullet.trans.rot as int,
        dist,
        rounds,
    );
}

/// The length of an offset that is `dist` along the heading of angle `rot`,
/// short by less than `rounds` roundings on each axis.
proof fn lemma_offset_length(ox: int, oy: int, rot: int, dist: int, rounds: int)
    requires
        axis_flown(ox, -sin_micro(rot), dist, rounds),
        axis_flown(oy, cos_micro(rot), dist, rounds),
        dist >= 0,
        rounds >= 0,
    ensures
        ox * ox + oy * oy <= dist * dist,
        ONE * (ox * ox + oy * oy) >= (ONE - 2) * (dist * dist) - 4 * rounds * ONE * dist,
{
    let hx = -sin_micro(rot);
    let hy = cos_micro(rot);
    lemma_unit_length(rot);
    lemma_axis_square(ox, hx, dist, rounds);
    lemma_axis_square(oy, hy, dist, rounds);
    let one2 = ONE * ONE;
    let d2 = dist * dist;
    let r2 = ox * ox + oy * oy;
    let h2 = hx * hx + hy * hy;
    assert(hx * hx == sin_micro(rot) * sin_micro(rot)) by (nonlinear_arith)
        requires
            hx == -sin_micro(rot),
    ;
    assert(one2 - 2 * ONE <= h2 <= one2);
    assert(one2 * r2 == one2 * (ox * ox) + one2 * (oy * oy)) by (nonlinear_arith)
        requires
            r2 == ox * ox + oy * oy,
    ;
    assert(d2 * h2 == d2 * (hx * hx) + d2 * (hy * hy)) by (nonlinear_arith)
        requires
            h2 == hx * hx + hy * hy,
    ;
    assert(one2 * r2 <= d2 * h2);
    assert(d2 * h2 <= d2 * one2) by (nonlinear_arith)
        requires
            d2 >= 0,
            h2 <= one2,
            d2 == dist * dist,
    ;
    assert(r2 <= d2) by (nonlinear_arith)
        requires
            one2 * r2 <= d2 * one2,
            one2 > 0,
    ;
    let g = magnitude(hx) + magnitude(hy);
    let k = rounds * ONE;
    assert(0 <= k) by (nonlinear_arith)
        requires
            k == rounds * ONE,
            rounds >= 0,
    ;
    assert(2 * k * (dist * magnitude(hx)) + 2 * k * (dist * magnitude(hy)) == 2 * k * (dist * g))
        by (nonlinear_arith)
        requires
            g == magnitude(hx) + magnitude(hy),
    ;
    assert(one2 * r2 >= d2 * h2 - 2 * k * (dist * g));
    assert(2 * k * (dist * g) <= 2 * k * (dist * (2 * ONE))) by (nonlinear_arith)
        requires
            0 <= k,
            0 <= dist,
            0 <= g <= 2 * ONE,
    ;
    assert(d2 * h2 >= d2 * (one2 - 2 * ONE)) by (nonlinear_arith)
        requires
            d2 >= 0,
            h2 >= one2 - 2 * ONE,
            d2 == dist * dist,
    ;
    assert(one2 * r2 >= ONE * ((ONE - 2) * d2 - 4 * rounds * ONE * dist)) by (nonlinear_arith)
        requires
            one2 * r2 >= d2 * (one2 - 2 * ONE) - 2 * k * (dist * (2 * ONE)),
            k == rounds * ONE,
            one2 == ONE * ONE,
    ;
    assert(ONE * r2 >= (ONE - 2) * d2 - 4 * rounds * ONE * dist) by (nonlinear_arith)
        requires
            one2 * r2 >= ONE * ((ONE - 2) * d2 - 4 * rounds * ONE * dist),
            one2 == ONE * ONE,
            ONE > 0,
    ;
}

/// Advancing by `d` moves a transform by the length `|d|` to within the
/// rounding, whatever its rotation: the step `r` meets
/// `(1 - 2/ONE) d^2 - 4 |d| <= r^2 <= d^2`.
pub proof fn lemma_fwd_length(t: Transform, d: i64)
    requires
        t.can_fwd(d),
    ensures
        dist_sq(t.fwd_spec(d).pos, t.pos) <= d * d,
        ONE * dist_sq(t.fwd_spec(d).pos, t.pos) >= (ONE - 2) * (d * d) - 4 * ONE * magnitude(
            d as int,
        ),
{
    let e = magnitude(d as int);
    let hx = t.heading_x();
    let hy = t.heading_y();
    assert(axis_flown(0, hx, 0, 0)) by (nonlinear_arith);
    assert(axis_flown(0, hy, 0, 0)) by (nonlinear_arith);
    lemma_axis_step(0, hx, 0, 0, e);
    lemma_axis_step(0, hy, 0, 0, e);
    lemma_offset_length(scaled_spec(e, hx), scaled_spec(e, hy), t.rot as int, e, 1);
    let sx = scaled_spec(d as int, hx);
    let sy = scaled_spec(d as int, hy);
    if d < 0 {
        lemma_scaled_neg(d as int, hx);
        lemma_scaled_neg(d as int, hy);
    }
    assert(sx * sx == scaled_spec(e, hx) * scaled_spec(e, hx)) by (nonlinear_arith)
        requires
            sx == scaled_spec(e, hx) || sx == -scaled_spec(e, hx),
    ;
    assert(sy * sy == scaled_spec(e, hy) * scaled_spec(e, hy)) by (nonlinear_arith)
        requires
            sy == scaled_spec(e, hy) || sy == -scaled_spec(e, hy),
    ;
    assert(e * e == d * d) by (nonlinear_arith)
        requires
            e == d || e == -d,
    ;
    assert(4 * 1 * ONE * e == 4 * ONE * e);
}

/// A projectile just fired has flown `MUZZLE_OFFSET` from the turret.
pub proof fn lemma_fired_flown(t: Tank, sprite: Sprite)
    requires
        t.can_fire(),
    ensures
        flown_from(t.fired(sprite), t.turret.trans.pos, MUZZLE_OFFSET as int, 1),
{
    let b = t.breech();
    assert(axis_flown(0, b.heading_x(), 0, 0)) by (nonlinear_arith);
    assert(axis_flown(0, b.heading_y(), 0, 0)) by (nonlinear_arith);
    lemma_axis_step(0, b.heading_x(), 0, 0, MUZZLE_OFFSET as int);
    lemma_axis_step(0, b.heading_y(), 0, 0, MUZZLE_OFFSET as int);
}

/// An update over `dt` adds `BULLET_SPEED * dt` to a projectile's flight, at
/// the cost of one more rounding: the speed is the same along every heading.
pub proof fn lemma_update_flown(b: Bullet, origin: Vec2, dist: int, rounds: int, dt: u32)
    requires
        flown_from(b, origin, dist, rounds),
        b.can_update(dt),
    ensures
        flown_from(b.updated(dt), origin, dist + BULLET_SPEED * dt, rounds + 1),
        b.updated(dt).bullet.trans.rot == b.bullet.trans.rot,
        b.updated(dt).to_be_removed == b.to_be_removed,
{
    let t = b.bullet.trans;
    lemma_axis_step(t.pos.x - origin.x, t.heading_x(), dist, rounds, BULLET_SPEED * dt);
    lemma_axis_step(t.pos.y - origin.y, t.heading_y(), dist, rounds, BULLET_SPEED * dt);
}

/// After `n` ticks of `dt` a fired projectile has flown `MUZZLE_OFFSET` and
/// `n` times `BULLET_SPEED * dt` from where the turret stood, so its distance
/// from there is that length to within the rounding that
/// `lemma_flown_distance` states.
pub proof fn lemma_flight_distance(t: Tank, sprite: Sprite, dt: u32, n: nat)
    requires
        t.can_fire(),
        forall|k: nat| k < n ==> (#[trigger] after_flight(t.fired(sprite), dt, k)).can_update(dt),
    ensures
        flown_from(
            after_flight(t.fired(sprite), dt, n),
            t.turret.trans.pos,
            MUZZLE_OFFSET + n * (BULLET_SPEED * dt),
            n as int + 1,
        ),
        after_flight(t.fired(sprite), dt, n).bullet.trans.rot == t.turret.trans.rot,
        !after_flight(t.fired(sprite), dt, n).to_be_removed,
    decreases n,
{
    let b = t.fired(sprite);
    if n == 0 {
        lemma_fired_flown(t, sprite);
        assert(0 * (BULLET_SPEED * dt) == 0) by (nonlinear_arith);
    } else {
        let m = (n - 1) as nat;
        assert forall|k: nat| k < m implies (#[trigger] after_flight(b, dt, k)).can_update(dt) by {
            assert(k < n);
        }
        lemma_flight_distance(t, sprite, dt, m);
        assert(after_flight(b, dt, m).can_update(dt));
        lemma_update_flown(
            after_flight(b, dt, m),
            t.turret.trans.pos,
            MUZZLE_OFFSET + m * (BULLET_SPEED * dt),
            m as int + 1,
            dt,
        );
        assert(n * (BULLET_SPEED * dt) == m * (BULLET_SPEED * dt) + BULLET_SPEED * dt)
            by (nonlinear_arith)
            requires
                n == m + 1,
        ;
    }
}

/// Whether the vehicle's turret stands on its hull.
pub open spec fn turret_on_hull(t: Tank) -> bool {
    t.turret.trans.pos == t.hull.trans.pos
}

/// A vehicle that is destroyed stays destroyed, whatever the session does
/// next.
pub proof fn lemma_destroyed_is_one_way(s: Session, sprites: Sprites, inp: Input, dt: u32)
    ensures
        s.player1.is_destroyed ==> s.on_load_spec(sprites).player1.is_destroyed && s.on_input_spec(
            inp,
        ).player1.is_destroyed && s.on_update_spec(dt).player1.is_destroyed,
        s.player2.is_destroyed ==> s.on_load_spec(sprites).player2.is_destroyed && s.on_input_spec(
            inp,
        ).player2.is_destroyed && s.on_update_spec(dt).player2.is_destroyed,
{
}

/// In a session each turret stays on its hull: loading, input and ticks never
/// part them.
pub proof fn lemma_turrets_stay_on_hulls(s: Session, sprites: Sprites, inp: Input, dt: u32)
    requires
        turret_on_hull(s.player1),
        turret_on_hull(s.player2),
    ensures
        turret_on_hull(s.on_load_spec(sprites).player1),
        turret_on_hull(s.on_load_spec(sprites).player2),
        turret_on_hull(s.on_input_spec(inp).player1),
        turret_on_hull(s.on_input_spec(inp).player2),
        turret_on_hull(s.on_update_spec(dt).player1),
        turret_on_hull(s.on_update_spec(dt).player2),
{
}

} // verus!
