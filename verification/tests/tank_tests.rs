use tank_game::fixed::ONE;
use tank_game::object::{
    Bullet, Component, DrawCommand, Image, Object, Sprite, Tank, BULLET_SPEED, HULL_HALF_LENGTH,
    HULL_HALF_WIDTH, MUZZLE_OFFSET,
};
use tank_game::transform::{Transform, Vec2};
use tank_game::trig::{EIGHTH_TURN, FULL_TURN, HALF_TURN, QUARTER_TURN};

fn sprite(id: u32) -> Sprite {
    Sprite { id, width: 77, height: 131 }
}

fn bullet_at(x: i64, y: i64) -> Bullet {
    let mut c = Component::new();
    c.trans.mov_to(Vec2::new(x, y));
    Bullet { bullet: c, to_be_removed: false }
}

fn gap(rot: i64, aim: i64) -> i64 {
    let m = (rot - aim).rem_euclid(FULL_TURN);
    if m <= HALF_TURN { m } else { FULL_TURN - m }
}

fn dist_sq(a: Vec2, b: Vec2) -> i128 {
    let dx = (a.x - b.x) as i128;
    let dy = (a.y - b.y) as i128;
    dx * dx + dy * dy
}

#[test]
fn new_tank_is_intact_at_the_origin() {
    let t = Tank::new();
    assert_eq!(t.hull.trans, Transform::new());
    assert_eq!(t.turret.trans, Transform::new());
    assert_eq!(t.hull.sprite, None);
    assert_eq!(t.turret.sprite, None);
    assert_eq!(t.collider.half_extents, Vec2 { x: 38 * ONE, y: 65 * ONE });
    assert_eq!(HULL_HALF_WIDTH, 38 * ONE);
    assert_eq!(HULL_HALF_LENGTH, 65 * ONE);
    assert!(!t.is_destroyed);
    assert_eq!(t.point_to, Vec2 { x: 0, y: 0 });
}

#[test]
fn component_set_sprite_replaces_the_sprite() {
    let mut c = Component::new();
    assert_eq!(c.sprite, None);
    c.set_sprite(sprite(1));
    assert_eq!(c.sprite, Some(sprite(1)));
    c.set_sprite(sprite(2));
    assert_eq!(c.sprite, Some(sprite(2)));
    assert_eq!(c.trans, Transform::new());
}

#[test]
fn component_without_sprite_draws_nothing() {
    let c = Component::new();
    let mut g: Vec<DrawCommand> = vec![DrawCommand::Clear];
    c.render(&mut g, Vec2::new(5, 6));
    assert_eq!(g, vec![DrawCommand::Clear]);
}

#[test]
fn component_draws_centred_on_its_position() {
    let mut c = Component::new();
    c.trans.mov_to(Vec2::new(10, 20));
    c.trans.rot_to(30);
    c.set_sprite(sprite(9));
    let mut g: Vec<DrawCommand> = Vec::new();
    c.render(&mut g, Vec2::new(5, 6));
    assert_eq!(
        g,
        vec![DrawCommand::Image(Image {
            sprite: sprite(9),
            view: Vec2 { x: 5, y: 6 },
            trans: Transform {
                pos: Vec2 { x: 10, y: 20 },
                scale: Vec2 { x: ONE, y: ONE },
                rot: 30
            },
            pivot: Vec2 { x: 38_500_000, y: 65_500_000 },
        })]
    );
}

#[test]
fn point_tur_to_stores_the_aim_point() {
    let mut t = Tank::new();
    t.point_tur_to(12, -34);
    assert_eq!(t.point_to, Vec2 { x: 12, y: -34 });
    assert_eq!(t.hull.trans, Transform::new());
    assert_eq!(t.turret.trans, Transform::new());
}

#[test]
fn tank_mov_and_mov_to_take_the_turret_along() {
    let mut t = Tank::new();
    t.mov(Vec2::new(5, 7));
    assert_eq!(t.hull.trans.pos, Vec2 { x: 5, y: 7 });
    assert_eq!(t.turret.trans.pos, Vec2 { x: 5, y: 7 });
    t.mov_to(Vec2::new(-1, -2));
    assert_eq!(t.hull.trans.pos, Vec2 { x: -1, y: -2 });
    assert_eq!(t.turret.trans.pos, Vec2 { x: -1, y: -2 });
}

#[test]
fn tank_rot_turns_hull_and_turret_alike() {
    let mut t = Tank::new();
    t.turret.trans.rot_to(1_000);
    t.rot(250);
    assert_eq!(t.hull.trans.rot, 250);
    assert_eq!(t.turret.trans.rot, 1_250);
}

#[test]
fn tank_rot_to_keeps_the_turret_offset() {
    let mut t = Tank::new();
    t.hull.trans.rot_to(400_000);
    t.turret.trans.rot_to(1_900_000);
    for r in [0i64, 5, -3_000_000, 6_283_184, 123_456_789, -1] {
        let before = t.turret.trans.rot - t.hull.trans.rot;
        t.rot_to(r);
        assert_eq!(t.hull.trans.rot, r);
        assert_eq!(t.turret.trans.rot - t.hull.trans.rot, before);
    }
    assert_eq!(t.turret.trans.rot, 1_499_999);
}

#[test]
fn tank_rot_to_takes_angles_whose_difference_is_wide() {
    let mut t = Tank::new();
    t.hull.trans.rot_to(i64::MIN);
    t.turret.trans.rot_to(i64::MIN + 5);
    t.rot_to(i64::MAX - 5);
    assert_eq!(t.hull.trans.rot, i64::MAX - 5);
    assert_eq!(t.turret.trans.rot, i64::MAX);
}

#[test]
fn tank_fwd_advances_the_hull_and_update_brings_the_turret() {
    let mut t = Tank::new();
    t.fwd(10 * ONE);
    assert_eq!(t.hull.trans.pos, Vec2 { x: 0, y: 10 * ONE });
    assert_eq!(t.turret.trans.pos, Vec2 { x: 0, y: 0 });
    t.point_tur_to(0, 20 * ONE);
    t.update(1_000);
    assert_eq!(t.turret.trans.pos, Vec2 { x: 0, y: 10 * ONE });
    assert_eq!(t.turret.trans.rot, 0);
    t.sync_turret();
    assert_eq!(t.turret.trans.pos, t.hull.trans.pos);
}

#[test]
fn turret_turns_at_two_radians_per_second() {
    let mut t = Tank::new();
    // aim straight along the negative x axis: a quarter turn to the left
    t.point_tur_to(-100 * ONE, 0);
    t.update(10_000);
    assert_eq!(t.turret.trans.rot, 20_000);
    t.update(10_000);
    assert_eq!(t.turret.trans.rot, 40_000);
    t.update(500_000);
    assert_eq!(t.turret.trans.rot, 1_040_000);
    t.update(500_000);
    assert_eq!(t.turret.trans.rot, QUARTER_TURN);
    t.update(500_000);
    assert_eq!(t.turret.trans.rot, QUARTER_TURN);
}

#[test]
fn turret_aim_is_taken_from_the_hull() {
    let mut t = Tank::new();
    t.mov_to(Vec2::new(50 * ONE, 50 * ONE));
    // the aim point lies straight below the hull
    t.point_tur_to(50 * ONE, -10 * ONE);
    t.update(u32::MAX);
    assert_eq!(t.turret.trans.rot, HALF_TURN);
    t.point_tur_to(60 * ONE, 60 * ONE);
    t.update(u32::MAX);
    assert_eq!(t.turret.trans.rot, FULL_TURN - EIGHTH_TURN);
}

#[test]
fn turret_tracking_converges_and_stays() {
    let aims: [(i64, i64); 6] =
        [(300, 0), (-300, 0), (0, -300), (0, 300), (-120, -250), (200, 199)];
    for (ax, ay) in aims {
        for start in [0i64, 1_000_000, 3_141_592, 6_283_183, 4_712_388] {
            let mut t = Tank::new();
            t.turret.trans.rot_to(start);
            t.point_tur_to(ax * ONE, ay * ONE);
            let mut probe = t;
            probe.update(u32::MAX);
            let aim = probe.turret.trans.rot;
            let dt: u32 = 8_333;
            let step: i64 = 2 * dt as i64;
            let mut left = gap(t.turret.trans.rot, aim);
            let mut ticks = 0;
            while left > 0 {
                t.update(dt);
                let now = gap(t.turret.trans.rot, aim);
                assert_eq!(now, left - step.min(left));
                assert!(0 <= t.turret.trans.rot && t.turret.trans.rot < FULL_TURN);
                left = now;
                ticks += 1;
                assert!(ticks < 1_000);
            }
            let settled = t.turret.trans.rot;
            assert_eq!(settled, aim);
            for _ in 0..5 {
                t.update(dt);
                assert_eq!(t.turret.trans.rot, settled);
            }
        }
    }
}

#[test]
fn turret_at_the_desired_angle_is_left_alone_even_below_zero() {
    let mut t = Tank::new();
    t.point_tur_to(100 * ONE, 0);
    t.turret.trans.rot_to(-QUARTER_TURN);
    t.update(1_000);
    assert_eq!(t.turret.trans.rot, -QUARTER_TURN);
}

#[test]
fn projectile_on_the_hull_collides() {
    let mut t = Tank::new();
    assert!(t.collides(&bullet_at(0, 0)));
    t.mov_to(Vec2::new(300 * ONE, -20 * ONE));
    assert!(t.collides(&bullet_at(300 * ONE, -20 * ONE)));
    assert!(!t.collides(&bullet_at(0, 0)));
}

#[test]
fn projectile_outside_the_box_does_not_collide() {
    let t = Tank::new();
    assert!(!t.collides(&bullet_at(39 * ONE, 66 * ONE)));
    assert!(!t.collides(&bullet_at(-39 * ONE, -66 * ONE)));
    assert!(!t.collides(&bullet_at(38 * ONE + 1, 0)));
    assert!(!t.collides(&bullet_at(0, 65 * ONE + 1)));
    assert!(!t.collides(&bullet_at(0, -65 * ONE - 1)));
    assert!(!t.collides(&bullet_at(i64::MAX, i64::MIN)));
}

#[test]
fn collision_box_includes_its_edges_and_ignores_rotation() {
    let mut t = Tank::new();
    assert!(t.collides(&bullet_at(38 * ONE, 65 * ONE)));
    assert!(t.collides(&bullet_at(-38 * ONE, -65 * ONE)));
    t.rot_to(QUARTER_TURN);
    assert!(t.collides(&bullet_at(38 * ONE, 65 * ONE)));
    assert!(!t.collides(&bullet_at(65 * ONE, 0)));
}

#[test]
fn collision_box_follows_the_hull_not_the_turret() {
    let mut t = Tank::new();
    t.fwd(200 * ONE);
    assert!(t.collides(&bullet_at(0, 200 * ONE)));
    assert!(!t.collides(&bullet_at(0, 0)));
}

#[test]
fn fire_spawns_at_the_muzzle() {
    let mut t = Tank::new();
    let b = t.fire(sprite(3));
    assert_eq!(MUZZLE_OFFSET, 125 * ONE);
    assert_eq!(b.bullet.trans.pos, Vec2 { x: 0, y: 125 * ONE });
    assert_eq!(b.bullet.trans.rot, 0);
    assert_eq!(b.bullet.trans.scale, Vec2 { x: ONE, y: ONE });
    assert_eq!(b.bullet.sprite, Some(sprite(3)));
    assert!(!b.to_be_removed);
    assert!(!t.collides(&b));

    t.mov_to(Vec2::new(10 * ONE, 20 * ONE));
    t.turret.trans.rot_to(3 * QUARTER_TURN);
    t.hull.trans.rot_to(1234);
    let b = t.fire(sprite(4));
    assert_eq!(b.bullet.trans.pos, Vec2 { x: 135 * ONE, y: 20 * ONE });
    assert_eq!(b.bullet.trans.rot, 3 * QUARTER_TURN);
    assert!(!t.collides(&b));
}

#[test]
fn fire_leaves_the_vehicle_as_it_was() {
    let mut t = Tank::new();
    t.turret.trans.rot_to(777);
    let before = t;
    let _ = t.fire(sprite(1));
    assert_eq!(t, before);
}

#[test]
fn bullet_flies_at_two_hundred_units_per_second() {
    assert_eq!(BULLET_SPEED, 200);
    let mut b = bullet_at(0, 0);
    b.update(1_000_000);
    assert_eq!(b.bullet.trans.pos, Vec2 { x: 0, y: 200 * ONE });
    b.update(8_333);
    assert_eq!(b.bullet.trans.pos, Vec2 { x: 0, y: 200 * ONE + 1_666_600 });
    b.update(0);
    assert_eq!(b.bullet.trans.pos, Vec2 { x: 0, y: 200 * ONE + 1_666_600 });
    let mut c = bullet_at(0, 0);
    c.rot_to(HALF_TURN + QUARTER_TURN);
    c.update(500_000);
    assert_eq!(c.bullet.trans.pos, Vec2 { x: 100 * ONE, y: 0 });
    assert!(!c.to_be_removed);
}

#[test]
fn bullet_primitives_act_on_its_transform() {
    let mut b = bullet_at(1, 2);
    b.mov(Vec2::new(10, 20));
    assert_eq!(b.bullet.trans.pos, Vec2 { x: 11, y: 22 });
    b.mov_to(Vec2::new(-5, -6));
    assert_eq!(b.bullet.trans.pos, Vec2 { x: -5, y: -6 });
    b.rot(100);
    b.rot(-30);
    assert_eq!(b.bullet.trans.rot, 70);
    b.rot_to(HALF_TURN);
    assert_eq!(b.bullet.trans.rot, HALF_TURN);
    b.fwd(4);
    assert_eq!(b.bullet.trans.pos, Vec2 { x: -5, y: -10 });
    b.to_be_removed = true;
    b.fwd(-4);
    assert_eq!(b.bullet.trans.pos, Vec2 { x: -5, y: -6 });
    assert!(b.to_be_removed);
}

#[test]
fn fired_projectile_recedes_from_the_turret_on_every_tick() {
    let mut rot: i64 = 0;
    while rot < FULL_TURN {
        for dt in [1u32, 7, 8_333, 16_667, 1_000_000] {
            let mut t = Tank::new();
            t.mov_to(Vec2::new(-40 * ONE, 17 * ONE));
            t.turret.trans.rot_to(rot);
            let muzzle = t.turret.trans.pos;
            let mut b = t.fire(sprite(1));
            let mut last = dist_sq(b.bullet.trans.pos, muzzle);
            assert!(last > 0);
            for _ in 0..20 {
                b.update(dt);
                let now = dist_sq(b.bullet.trans.pos, muzzle);
                assert!(now > last, "rot {} dt {}", rot, dt);
                last = now;
            }
        }
        rot += 98_765;
    }
}

#[test]
fn fired_projectile_covers_the_fixed_speed() {
    let mut t = Tank::new();
    t.turret.trans.rot_to(3 * QUARTER_TURN);
    let mut b = t.fire(sprite(1));
    for k in 1..=10i64 {
        b.update(8_333);
        assert_eq!(b.bullet.trans.pos, Vec2 { x: 125 * ONE + k * 1_666_600, y: 0 });
    }
}

#[test]
fn tank_draws_hull_then_turret() {
    let mut t = Tank::new();
    let view = Vec2::new(300 * ONE, 300 * ONE);
    let mut g: Vec<DrawCommand> = Vec::new();
    t.render(&mut g, view);
    assert!(g.is_empty());
    t.hull.set_sprite(Sprite { id: 1, width: 76, height: 130 });
    t.turret.set_sprite(Sprite { id: 2, width: 41, height: 99 });
    t.turret.trans.rot_to(500);
    t.render(&mut g, view);
    assert_eq!(g.len(), 2);
    match (g[0], g[1]) {
        (DrawCommand::Image(hull), DrawCommand::Image(turret)) => {
            assert_eq!(hull.sprite.id, 1);
            assert_eq!(hull.pivot, Vec2 { x: 38 * ONE, y: 65 * ONE });
            assert_eq!(hull.trans, t.hull.trans);
            assert_eq!(hull.view, view);
            assert_eq!(turret.sprite.id, 2);
            assert_eq!(turret.pivot, Vec2 { x: 20_500_000, y: 49_500_000 });
            assert_eq!(turret.trans, t.turret.trans);
            assert_eq!(turret.view, view);
        }
        _ => panic!("two images expected"),
    }
}

#[test]
fn bullet_draws_its_component() {
    let mut b = bullet_at(3, 4);
    let mut g: Vec<DrawCommand> = Vec::new();
    b.render(&mut g, Vec2::new(0, 0));
    assert!(g.is_empty());
    b.bullet.set_sprite(Sprite { id: 5, width: 9, height: 9 });
    b.render(&mut g, Vec2::new(1, 2));
    assert_eq!(
        g,
        vec![DrawCommand::Image(Image {
            sprite: Sprite { id: 5, width: 9, height: 9 },
            view: Vec2 { x: 1, y: 2 },
            trans: b.bullet.trans,
            pivot: Vec2 { x: 4_500_000, y: 4_500_000 },
        })]
    );
}

#[test]
fn destroy_marks_the_vehicle_and_swaps_its_sprites() {
    let mut t = Tank::new();
    t.hull.set_sprite(sprite(1));
    t.turret.set_sprite(sprite(2));
    t.destroy(sprite(3), sprite(4));
    assert!(t.is_destroyed);
    assert_eq!(t.hull.sprite, Some(sprite(3)));
    assert_eq!(t.turret.sprite, Some(sprite(4)));
    assert_eq!(t.hull.trans, Transform::new());
}

#[test]
fn sprite_of_odd_size_is_centred_on_the_half_pixel() {
    let mut c = Component::new();
    c.set_sprite(Sprite { id: 1, width: 7, height: 9 });
    let mut g: Vec<DrawCommand> = Vec::new();
    c.render(&mut g, Vec2::new(0, 0));
    match g[0] {
        DrawCommand::Image(i) => assert_eq!(i.pivot, Vec2 { x: 3_500_000, y: 4_500_000 }),
        DrawCommand::Clear => panic!("an image expected"),
    }
    c.set_sprite(Sprite { id: 1, width: u32::MAX, height: 0 });
    let mut g: Vec<DrawCommand> = Vec::new();
    c.render(&mut g, Vec2::new(0, 0));
    match g[0] {
        DrawCommand::Image(i) => {
            assert_eq!(i.pivot, Vec2 { x: 4_294_967_295 * 500_000, y: 0 })
        }
        DrawCommand::Clear => panic!("an image expected"),
    }
}

#[test]
fn projectile_flies_at_the_fixed_speed_along_a_slanted_heading() {
    let mut t = Tank::new();
    t.turret.trans.rot_to(523_599);
    let mut b = t.fire(sprite(1));
    assert_eq!(b.bullet.trans.pos, Vec2 { x: -62_500_000, y: 108_253_125 });
    b.update(1_000_000);
    assert_eq!(b.bullet.trans.pos, Vec2 { x: -162_500_000, y: 281_458_125 });
    assert_eq!(b.bullet.trans.rot, 523_599);
    assert!(!b.to_be_removed);
    let far = (dist_sq(b.bullet.trans.pos, t.turret.trans.pos) as f64).sqrt();
    assert!((far - 325.0e6).abs() < 400.0);
}

#[test]
fn fired_projectile_is_at_muzzle_plus_speed_times_time_on_every_heading() {
    let one: i128 = 1_000_000;
    let mut rot: i64 = 0;
    while rot < FULL_TURN {
        for dt in [1u32, 8_333, 16_667, 250_000] {
            let mut t = Tank::new();
            t.mov_to(Vec2::new(9 * ONE, -4 * ONE));
            t.turret.trans.rot_to(rot);
            let from = t.turret.trans.pos;
            let mut b = t.fire(sprite(1));
            for n in 0..=30i128 {
                let flown = 125 * one + n * 200 * (dt as i128);
                let r2 = dist_sq(b.bullet.trans.pos, from);
                assert!(r2 <= flown * flown, "rot {} dt {} n {}", rot, dt, n);
                assert!(
                    one * r2 >= (one - 2) * flown * flown - 4 * (n + 1) * one * flown,
                    "rot {} dt {} n {}",
                    rot,
                    dt,
                    n
                );
                b.update(dt);
            }
        }
        rot += 77_773;
    }
}

#[test]
fn new_tank_is_sound_and_stays_so() {
    let mut t = Tank::new();
    let sound = |t: &Tank| t.collider.half_extents.x >= 0 && t.collider.half_extents.y >= 0;
    assert!(sound(&t));
    t.mov(Vec2::new(1, 2));
    t.rot(5);
    t.rot_to(-9);
    t.fwd(1_000);
    t.point_tur_to(3, 4);
    t.update(8_333);
    t.destroy(sprite(3), sprite(4));
    assert!(sound(&t));
    assert!(t.collides(&bullet_at(t.hull.trans.pos.x, t.hull.trans.pos.y)));
}
