use tank_game::fixed::ONE;
use tank_game::game::{
    Game, Input, Key, MouseButton, Sprites, DRIVE_SPEED, START_CENTER, START_OFFSET, TURN_RATE,
};
use tank_game::object::{Bullet, Component, DrawCommand, Object, Sprite, Tank};
use tank_game::transform::Vec2;
use tank_game::trig::{FULL_TURN, QUARTER_TURN};

fn sprites() -> Sprites {
    Sprites {
        hull: Sprite { id: 1, width: 76, height: 130 },
        turret: Sprite { id: 2, width: 40, height: 100 },
        hull_destroyed: Sprite { id: 3, width: 76, height: 130 },
        turret_destroyed: Sprite { id: 4, width: 40, height: 100 },
        bullet: Sprite { id: 5, width: 8, height: 8 },
    }
}

fn loaded() -> Game {
    let mut g = Game::new();
    g.on_load(sprites());
    g
}

fn bullet(x: i64, y: i64, rot: i64, flagged: bool) -> Bullet {
    let mut c = Component::new();
    c.trans.mov_to(Vec2::new(x, y));
    c.trans.rot_to(rot);
    c.set_sprite(sprites().bullet);
    Bullet { bullet: c, to_be_removed: flagged }
}

#[test]
fn new_game_is_empty_and_idle() {
    let g = Game::new();
    assert_eq!(g.player1, Tank::new());
    assert_eq!(g.player2, Tank::new());
    assert!(g.bullets.is_empty());
    assert_eq!(g.hull_destroyed, None);
    assert_eq!(g.turret_destroyed, None);
    assert_eq!(g.bullet, None);
    assert!(!g.up_d && !g.down_d && !g.left_d && !g.right_d);
    assert_eq!((g.scx, g.scy), (300 * ONE, 300 * ONE));
    assert_eq!(START_CENTER, 300 * ONE);
}

#[test]
fn on_load_binds_sprites_and_places_the_second_vehicle() {
    let g = loaded();
    let s = sprites();
    assert_eq!(g.hull_destroyed, Some(s.hull_destroyed));
    assert_eq!(g.turret_destroyed, Some(s.turret_destroyed));
    assert_eq!(g.bullet, Some(s.bullet));
    assert_eq!(g.player1.hull.sprite, Some(s.hull));
    assert_eq!(g.player1.turret.sprite, Some(s.turret));
    assert_eq!(g.player2.hull.sprite, Some(s.hull));
    assert_eq!(g.player2.turret.sprite, Some(s.turret));
    assert_eq!(g.player1.hull.trans.pos, Vec2 { x: 0, y: 0 });
    assert_eq!(g.player2.hull.trans.pos, Vec2 { x: 300 * ONE, y: 0 });
    assert_eq!(g.player2.turret.trans.pos, Vec2 { x: 300 * ONE, y: 0 });
    assert_eq!(START_OFFSET, 300 * ONE);
    assert!(!g.player1.is_destroyed && !g.player2.is_destroyed);
    assert!(g.bullets.is_empty());
}

#[test]
fn keys_set_and_clear_their_flags() {
    let mut g = loaded();
    g.on_input(Input::KeyDown(Key::Up));
    assert!(g.up_d && !g.down_d && !g.left_d && !g.right_d);
    g.on_input(Input::KeyDown(Key::Down));
    g.on_input(Input::KeyDown(Key::Left));
    g.on_input(Input::KeyDown(Key::Right));
    assert!(g.up_d && g.down_d && g.left_d && g.right_d);
    g.on_input(Input::KeyUp(Key::Up));
    assert!(!g.up_d && g.down_d && g.left_d && g.right_d);
    g.on_input(Input::KeyUp(Key::Down));
    g.on_input(Input::KeyUp(Key::Left));
    assert!(!g.up_d && !g.down_d && !g.left_d && g.right_d);
    g.on_input(Input::KeyUp(Key::Right));
    assert!(!g.right_d);
    g.on_input(Input::KeyUp(Key::Right));
    assert!(!g.right_d);
    assert_eq!(g.player1, loaded().player1);
    assert!(g.bullets.is_empty());
}

#[test]
fn cursor_sets_the_aim_relative_to_the_screen_centre() {
    let mut g = loaded();
    g.on_input(Input::MouseMove(600 * ONE, 300 * ONE));
    assert_eq!(g.player1.point_to, Vec2 { x: 300 * ONE, y: 0 });
    g.on_input(Input::MouseMove(0, 10));
    assert_eq!(g.player1.point_to, Vec2 { x: -300 * ONE, y: 10 - 300 * ONE });
    let _ = g.on_draw(801, 601);
    assert_eq!((g.scx, g.scy), (400 * ONE, 300 * ONE));
    g.on_input(Input::MouseMove(0, 0));
    assert_eq!(g.player1.point_to, Vec2 { x: -400 * ONE, y: -300 * ONE });
    assert_eq!(g.player2.point_to, Vec2 { x: 0, y: 0 });
}

#[test]
fn left_mouse_release_fires_and_other_buttons_do_not() {
    let mut g = loaded();
    g.on_input(Input::MouseRelease(MouseButton::Other));
    assert!(g.bullets.is_empty());
    g.on_input(Input::MouseRelease(MouseButton::Left));
    assert_eq!(g.bullets.len(), 1);
    assert_eq!(g.bullets[0], g.player1.fire(sprites().bullet));
    assert_eq!(g.bullets[0].bullet.trans.pos, Vec2 { x: 0, y: 125 * ONE });
    g.player1.turret.trans.rot_to(QUARTER_TURN);
    g.on_input(Input::MouseRelease(MouseButton::Left));
    assert_eq!(g.bullets.len(), 2);
    assert_eq!(g.bullets[1].bullet.trans.pos, Vec2 { x: -125 * ONE, y: 0 });
    assert_eq!(g.bullets[0].bullet.trans.pos, Vec2 { x: 0, y: 125 * ONE });
}

#[test]
fn update_without_input_changes_nothing() {
    let mut g = loaded();
    g.on_update(8_333);
    assert_eq!(g.player1, loaded().player1);
    assert_eq!(g.player2, loaded().player2);
    assert!(g.bullets.is_empty());
    let mut fresh = Game::new();
    fresh.on_update(8_333);
    assert_eq!(fresh.player1, Tank::new());
}

#[test]
fn up_and_down_drive_the_first_vehicle() {
    assert_eq!(DRIVE_SPEED, 150);
    let mut g = loaded();
    g.on_input(Input::KeyDown(Key::Up));
    g.on_update(1_000_000);
    assert_eq!(g.player1.hull.trans.pos, Vec2 { x: 0, y: 150 * ONE });
    assert_eq!(g.player1.turret.trans.pos, Vec2 { x: 0, y: 150 * ONE });
    assert_eq!(g.player2.hull.trans.pos, Vec2 { x: 300 * ONE, y: 0 });
    g.on_input(Input::KeyUp(Key::Up));
    g.on_input(Input::KeyDown(Key::Down));
    g.on_update(8_333);
    assert_eq!(g.player1.hull.trans.pos, Vec2 { x: 0, y: 150 * ONE - 1_249_950 });
    assert_eq!(g.player1.turret.trans.pos, g.player1.hull.trans.pos);
    g.on_input(Input::KeyDown(Key::Up));
    let before = g.player1;
    g.on_update(8_333);
    assert_eq!(g.player1, before);
}

#[test]
fn left_turns_hull_and_turret_and_right_does_nothing() {
    assert_eq!(TURN_RATE, 1);
    let mut g = loaded();
    g.player1.turret.trans.rot_to(500);
    g.on_input(Input::KeyDown(Key::Left));
    g.on_update(8_333);
    assert_eq!(g.player1.hull.trans.rot, -8_333);
    assert_eq!(g.player1.turret.trans.rot, 500 - 8_333);
    g.on_input(Input::KeyUp(Key::Left));
    g.on_input(Input::KeyDown(Key::Right));
    let before = g.player1;
    g.on_update(8_333);
    assert_eq!(g.player1, before);
    assert!(g.right_d);
}

#[test]
fn driving_follows_the_hull_heading() {
    let mut g = loaded();
    g.player1.rot_to(-QUARTER_TURN);
    g.on_input(Input::KeyDown(Key::Up));
    g.on_update(1_000_000);
    assert_eq!(g.player1.hull.trans.pos, Vec2 { x: 150 * ONE, y: 0 });
}

#[test]
fn a_destroyed_vehicle_does_not_drive() {
    let mut g = loaded();
    g.player1.is_destroyed = true;
    g.on_input(Input::KeyDown(Key::Up));
    g.on_input(Input::KeyDown(Key::Left));
    let before = g.player1;
    g.on_update(1_000_000);
    assert_eq!(g.player1, before);
    let mut h = loaded();
    h.on_input(Input::KeyDown(Key::Down));
    h.bullets.push(bullet(0, 0, 0, false));
    h.on_update(1_000_000);
    assert!(h.player1.is_destroyed);
    assert_eq!(h.player1.hull.trans.pos, Vec2 { x: 0, y: 0 });
}

#[test]
fn projectiles_fly_on_each_tick() {
    let mut g = loaded();
    g.bullets.push(bullet(0, 500 * ONE, 0, false));
    g.bullets.push(bullet(0, -500 * ONE, QUARTER_TURN, false));
    g.on_update(1_000_000);
    assert_eq!(g.bullets.len(), 2);
    assert_eq!(g.bullets[0].bullet.trans.pos, Vec2 { x: 0, y: 700 * ONE });
    assert_eq!(g.bullets[1].bullet.trans.pos, Vec2 { x: -200 * ONE, y: -500 * ONE });
    assert!(!g.player1.is_destroyed && !g.player2.is_destroyed);
}

#[test]
fn a_hit_wrecks_the_vehicle_and_removes_the_projectile() {
    let mut g = loaded();
    g.bullets.push(bullet(0, 500 * ONE, 0, false));
    g.bullets.push(bullet(310 * ONE, 60 * ONE, 0, false));
    g.bullets.push(bullet(0, -500 * ONE, 0, false));
    g.on_update(8_333);
    let s = sprites();
    assert!(g.player2.is_destroyed);
    assert_eq!(g.player2.hull.sprite, Some(s.hull_destroyed));
    assert_eq!(g.player2.turret.sprite, Some(s.turret_destroyed));
    assert!(!g.player1.is_destroyed);
    assert_eq!(g.player1.hull.sprite, Some(s.hull));
    assert_eq!(g.bullets.len(), 2);
    assert_eq!(g.bullets[0].bullet.trans.pos, Vec2 { x: 0, y: 500 * ONE + 1_666_600 });
    assert_eq!(g.bullets[1].bullet.trans.pos, Vec2 { x: 0, y: -500 * ONE + 1_666_600 });
    // the wreck stays a wreck
    g.on_update(8_333);
    assert!(g.player2.is_destroyed);
    assert_eq!(g.bullets.len(), 2);
}

#[test]
fn one_projectile_can_wreck_both_vehicles() {
    let mut g = loaded();
    g.player2.mov_to(Vec2::new(50 * ONE, 0));
    g.bullets.push(bullet(25 * ONE, 0, 0, false));
    g.on_update(8_333);
    assert!(g.player1.is_destroyed);
    assert!(g.player2.is_destroyed);
    assert_eq!(g.player1.hull.sprite, Some(sprites().hull_destroyed));
    assert_eq!(g.player2.turret.sprite, Some(sprites().turret_destroyed));
    assert!(g.bullets.is_empty());
}

#[test]
fn a_flagged_projectile_leaves_without_a_hit() {
    let mut g = loaded();
    g.bullets.push(bullet(0, 500 * ONE, 0, true));
    g.bullets.push(bullet(0, 600 * ONE, 0, false));
    g.on_update(8_333);
    assert_eq!(g.bullets.len(), 1);
    assert_eq!(g.bullets[0].bullet.trans.pos, Vec2 { x: 0, y: 600 * ONE + 1_666_600 });
    assert!(!g.player1.is_destroyed && !g.player2.is_destroyed);
}

#[test]
fn compact_drops_flagged_projectiles_and_keeps_the_order() {
    let mut g = loaded();
    for k in 0..10i64 {
        g.bullets.push(bullet(k, 1_000 * ONE, 0, k % 3 == 0));
    }
    g.compact();
    let xs: Vec<i64> = g.bullets.iter().map(|b| b.bullet.trans.pos.x).collect();
    assert_eq!(xs, vec![1, 2, 4, 5, 7, 8]);
    assert!(g.bullets.iter().all(|b| !b.to_be_removed));
    g.compact();
    assert_eq!(g.bullets.len(), 6);
    let mut all = loaded();
    all.bullets.push(bullet(0, 0, 0, true));
    all.compact();
    assert!(all.bullets.is_empty());
}

#[test]
fn no_live_projectile_is_flagged_after_an_update() {
    let mut g = loaded();
    for k in 0..40i64 {
        g.bullets.push(bullet(k * 10 * ONE, (k % 7) * 20 * ONE, k * 100_000, k % 5 == 0));
    }
    for _ in 0..50 {
        g.on_update(16_667);
        assert!(g.bullets.iter().all(|b| !b.to_be_removed));
    }
}

#[test]
fn frame_is_cleared_then_vehicles_then_projectiles() {
    let mut g = loaded();
    g.bullets.push(bullet(1, 1_000 * ONE, 0, false));
    g.bullets.push(bullet(2, 1_000 * ONE, 0, false));
    g.bullets[1].bullet.sprite = None;
    g.bullets.push(bullet(3, 1_000 * ONE, 0, false));
    let frame = g.on_draw(640, 481);
    assert_eq!((g.scx, g.scy), (320 * ONE, 240 * ONE));
    assert_eq!(frame.len(), 7);
    assert_eq!(frame[0], DrawCommand::Clear);
    let mut ids: Vec<u32> = Vec::new();
    let mut xs: Vec<i64> = Vec::new();
    for c in &frame[1..] {
        match c {
            DrawCommand::Image(i) => {
                assert_eq!(i.view, Vec2 { x: 320 * ONE, y: 240 * ONE });
                ids.push(i.sprite.id);
                xs.push(i.trans.pos.x);
            }
            DrawCommand::Clear => panic!("cleared twice"),
        }
    }
    assert_eq!(ids, vec![1, 2, 1, 2, 5, 5]);
    assert_eq!(xs, vec![0, 0, 300 * ONE, 300 * ONE, 1, 3]);
    let mut expected: Vec<DrawCommand> = vec![DrawCommand::Clear];
    let center = Vec2::new(g.scx, g.scy);
    g.player1.render(&mut expected, center);
    g.player2.render(&mut expected, center);
    for b in &g.bullets {
        b.render(&mut expected, center);
    }
    assert_eq!(frame, expected);
}

#[test]
fn frame_of_an_unloaded_game_is_only_cleared() {
    let mut g = Game::new();
    assert_eq!(g.on_draw(0, 1), vec![DrawCommand::Clear]);
    assert_eq!((g.scx, g.scy), (0, 0));
    let _ = g.on_draw(u32::MAX, u32::MAX);
    assert_eq!(g.scx, 2_147_483_647 * ONE);
}

#[test]
fn duel_from_the_origin_wrecks_the_second_vehicle() {
    let dt: u32 = 8_333;
    let mut g = loaded();
    assert_eq!(g.player1.hull.trans.rot, 0);
    // point the turret at the second vehicle
    g.on_input(Input::MouseMove(g.scx + 300 * ONE, g.scy));
    assert_eq!(g.player1.point_to, g.player2.hull.trans.pos);
    let mut ticks = 0;
    loop {
        let before = g.player1.turret.trans.rot;
        g.player1.update(dt);
        if g.player1.turret.trans.rot == before {
            break;
        }
        ticks += 1;
        assert!(ticks < 1_000);
    }
    assert_eq!(g.player1.turret.trans.rot, FULL_TURN - QUARTER_TURN);
    assert_eq!(ticks, 95);
    g.on_input(Input::MouseRelease(MouseButton::Left));
    assert_eq!(g.bullets.len(), 1);
    assert_eq!(g.bullets[0].bullet.trans.pos, Vec2 { x: 125 * ONE, y: 0 });
    let mut flights = 0;
    while !g.player2.is_destroyed {
        assert_eq!(g.bullets.len(), 1);
        g.on_update(dt);
        flights += 1;
        assert!(flights < 1_000);
    }
    // 137 units to the near edge of the box at 1.6666 units a tick: inside
    // after 83 ticks, seen and removed on the 84th.
    assert_eq!(flights, 84);
    assert!(g.bullets.is_empty());
    assert!(!g.player1.is_destroyed);
    assert_eq!(g.player2.hull.sprite, Some(sprites().hull_destroyed));
    assert_eq!(g.player2.turret.sprite, Some(sprites().turret_destroyed));
    g.on_update(dt);
    assert!(g.player2.is_destroyed);
    assert!(g.bullets.is_empty());
}

#[test]
fn input_fits_tells_when_an_event_can_be_taken() {
    let fresh = Game::new();
    assert!(!fresh.input_fits(Input::MouseRelease(MouseButton::Left)));
    assert!(fresh.input_fits(Input::MouseRelease(MouseButton::Other)));
    assert!(fresh.input_fits(Input::KeyDown(Key::Up)));
    assert!(fresh.input_fits(Input::KeyUp(Key::Right)));
    let mut g = loaded();
    assert!(g.input_fits(Input::MouseRelease(MouseButton::Left)));
    assert!(g.input_fits(Input::MouseMove(0, 0)));
    assert!(g.input_fits(Input::MouseMove(i64::MAX, i64::MAX)));
    assert!(g.input_fits(Input::MouseMove(i64::MIN + 300 * ONE, 0)));
    assert!(!g.input_fits(Input::MouseMove(i64::MIN + 300 * ONE - 1, 0)));
    assert!(!g.input_fits(Input::MouseMove(0, i64::MIN)));
    g.player1.turret.trans.mov_to(Vec2::new(0, i64::MAX - 125 * ONE));
    assert!(g.input_fits(Input::MouseRelease(MouseButton::Left)));
    assert!(g.player1.fire_fits());
    g.player1.turret.trans.mov_to(Vec2::new(0, i64::MAX - 125 * ONE + 1));
    assert!(!g.input_fits(Input::MouseRelease(MouseButton::Left)));
    assert!(!g.player1.fire_fits());
}

#[test]
fn update_fits_tells_when_a_tick_can_be_taken() {
    let mut g = loaded();
    assert!(g.update_fits(0));
    assert!(g.update_fits(u32::MAX));
    g.bullets.push(bullet(0, i64::MAX - 200 * ONE, 0, false));
    assert!(g.update_fits(1_000_000));
    assert!(!g.update_fits(1_000_001));
    g.bullets.clear();

    // a hit needs the sprites of a wreck
    let mut fresh = Game::new();
    fresh.bullets.push(bullet(0, 500 * ONE, 0, false));
    assert!(fresh.update_fits(8_333));
    fresh.bullets.push(bullet(0, 0, 0, false));
    assert!(!fresh.update_fits(8_333));
    fresh.hull_destroyed = Some(sprites().hull_destroyed);
    assert!(!fresh.update_fits(8_333));
    fresh.turret_destroyed = Some(sprites().turret_destroyed);
    assert!(fresh.update_fits(8_333));

    // driving must stay within the coordinates
    let mut d = loaded();
    d.player1.mov_to(Vec2::new(0, i64::MAX - 150 * ONE));
    d.player2.mov_to(Vec2::new(0, 0));
    d.on_input(Input::KeyDown(Key::Up));
    assert!(d.update_fits(1_000_000));
    assert!(!d.update_fits(1_000_001));
    d.on_input(Input::KeyDown(Key::Down));
    assert!(!d.update_fits(1_000_001));
    d.on_input(Input::KeyUp(Key::Up));
    assert!(d.update_fits(1_000_001));
    // a wreck does not drive, so nothing can leave the coordinates
    d.on_input(Input::KeyDown(Key::Up));
    d.bullets.push(bullet(0, i64::MAX - 150 * ONE, QUARTER_TURN, false));
    assert!(d.update_fits(1_000_001));

    // turning must stay within the angles
    let mut t = loaded();
    t.on_input(Input::KeyDown(Key::Left));
    t.player1.turret.trans.rot_to(i64::MIN + 5);
    assert!(t.update_fits(5));
    assert!(!t.update_fits(6));
}
