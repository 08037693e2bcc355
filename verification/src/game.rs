//! The game session: two vehicles, the live projectiles, what the player is
//! pressing, and what each frame does to them.
use vstd::prelude::*;
use crate::fixed::ONE;
use crate::object::{Bullet, DrawCommand, Object, Sprite, Tank, BULLET_SPEED};
use crate::transform::{fits, Vec2};

verus! {

/// How fast the player's vehicle drives, in units per second.
pub const DRIVE_SPEED: i64 = 150;

/// How fast the player's vehicle turns, in radians per second.
pub const TURN_RATE: i64 = 1;

/// Where the second vehicle starts, along the x axis.
pub const START_OFFSET: i64 = 300_000_000;

/// Where the centre of the screen is taken to be before the first frame.
pub const START_CENTER: i64 = 300_000_000;

/// The keys that the game listens to.
#[derive(Clone, Copy, Debug, PartialEq, Eq)]
pub enum Key {
    Up,
    Down,
    Left,
    Right,
}

/// The mouse buttons: the left one, and every other.
#[derive(Clone, Copy, Debug, PartialEq, Eq)]
pub enum MouseButton {
    Left,
    Other,
}

/// An input event. Cursor coordinates are absolute, in millionths of a pixel.
#[derive(Clone, Copy, Debug, PartialEq, Eq)]
pub enum Input {
    KeyDown(Key),
    KeyUp(Key),
    MouseRelease(MouseButton),
    MouseMove(i64, i64),
}

/// The sprites that a session is loaded with.
#[derive(Clone, Copy, Debug, PartialEq, Eq)]
pub struct Sprites {
    pub hull: Sprite,
    pub turret: Sprite,
    pub hull_destroyed: Sprite,
    pub turret_destroyed: Sprite,
    pub bullet: Sprite,
}

/// A game session.
pub struct Game {
    pub player1: Tank,
    pub player2: Tank,
    pub bullets: Vec<Bullet>,
    pub hull_destroyed: Option<Sprite>,
    pub turret_destroyed: Option<Sprite>,
    pub bullet: Option<Sprite>,
    pub up_d: bool,
    pub down_d: bool,
    pub left_d: bool,
    pub right_d: bool,
    pub scx: i64,
    pub scy: i64,
}

/// A session as a value: the projectiles as a sequence.
pub ghost struct Session {
    pub player1: Tank,
    pub player2: Tank,
    pub bullets: Seq<Bullet>,
    pub hull_destroyed: Option<Sprite>,
    pub turret_destroyed: Option<Sprite>,
    pub bullet: Option<Sprite>,
    pub up_d: bool,
    pub down_d: bool,
    pub left_d: bool,
    pub right_d: bool,
    pub scx: i64,
    pub scy: i64,
}

impl View for Game {
    type V = Session;

    open spec fn view(&self) -> Session {
        Session {
            player1: self.player1,
            player2: self.player2,
            bullets: self.bullets@,
            hull_destroyed: self.hull_destroyed,
            turret_destroyed: self.turret_destroyed,
            bullet: self.bullet,
            up_d: self.up_d,
            down_d: self.down_d,
            left_d: self.left_d,
            right_d: self.right_d,
            scx: self.scx,
            scy: self.scy,
        }
    }
}

impl Session {
    /// Whether both vehicles are sound.
    pub open spec fn valid(self) -> bool {
        self.player1.valid() && self.player2.valid()
    }

    /// Whether the session holds the sprites of a wreck.
    pub open spec fn has_wreck_sprites(self) -> bool {
        self.hull_destroyed.is_some() && self.turret_destroyed.is_some()
    }

    /// The session before anything is loaded.
    pub open spec fn start() -> Session {
        Session {
            player1: Tank::new_spec(),
            player2: Tank::new_spec(),
            bullets: Seq::empty(),
            hull_destroyed: None,
            turret_destroyed: None,
            bullet: None,
            up_d: false,
            down_d: false,
            left_d: false,
            right_d: false,
            scx: START_CENTER,
            scy: START_CENTER,
        }
    }

    /// The session once `sprites` are bound: both vehicles show the intact
    /// hull and turret, and the second vehicle stands at its starting offset.
    pub open spec fn on_load_spec(self, sprites: Sprites) -> Session {
        Session {
            hull_destroyed: Some(sprites.hull_destroyed),
            turret_destroyed: Some(sprites.turret_destroyed),
            bullet: Some(sprites.bullet),
            player1: self.player1.dressed(sprites.hull, sprites.turret),
            player2: self.player2.dressed(sprites.hull, sprites.turret).moved_to(
                Vec2 { x: START_OFFSET, y: 0 },
            ),
            ..self
        }
    }

    /// The flags after `key` went down (`held`) or up.
    pub open spec fn keyed(self, key: Key, held: bool) -> Session {
        match key {
            Key::Up => Session { up_d: held, ..self },
            Key::Down => Session { down_d: held, ..self },
            Key::Left => Session { left_d: held, ..self },
            Key::Right => Session { right_d: held, ..self },
        }
    }

    /// Whether the event can be taken: firing needs the projectile sprite and
    /// a muzzle within the coordinates, aiming a cursor whose offset from the
    /// screen centre fits.
    pub open spec fn can_input(self, inp: Input) -> bool {
        match inp {
            Input::MouseRelease(MouseButton::Left) => self.bullet.is_some()
                && self.player1.can_fire(),
            Input::MouseMove(x, y) => fits(x - self.scx) && fits(y - self.scy),
            _ => true,
        }
    }

    /// The session after an input event: a key sets or clears its flag, the
    /// left mouse button fires the first vehicle's gun, the cursor sets its
    /// aim point relative to the screen centre; nothing else changes.
    pub open spec fn on_input_spec(self, inp: Input) -> Session {
        match inp {
            Input::KeyDown(key) => self.keyed(key, true),
            Input::KeyUp(key) => self.keyed(key, false),
            Input::MouseRelease(MouseButton::Left) => Session {
                bullets: self.bullets.push(self.player1.fired(self.bullet.unwrap())),
                ..self
            },
            Input::MouseRelease(MouseButton::Other) => self,
            Input::MouseMove(x, y) => Session {
                player1: Tank {
                    point_to: Vec2 { x: (x - self.scx) as i64, y: (y - self.scy) as i64 },
                    ..self.player1
                },
                ..self
            },
        }
    }
}

impl Game {
    /// A session with two vehicles at the origin, no projectiles, no sprites
    /// and no key held.
    pub fn new() -> (game: Game)
        ensures
            game@ == Session::start(),
            game@.valid(),
    {
        Game {
            player1: Tank::new(),
            player2: Tank::new(),
            bullets: Vec::<Bullet>::new(),
            up_d: false,
            down_d: false,
            left_d: false,
            right_d: false,
            scx: START_CENTER,
            scy: START_CENTER,
            hull_destroyed: None,
            turret_destroyed: None,
            bullet: None,
        }
    }

    /// Binds the loaded sprites and places the second vehicle.
    pub fn on_load(&mut self, sprites: Sprites)
        ensures
            final(self)@ == old(self)@.on_load_spec(sprites),
    {
        self.hull_destroyed = Some(sprites.hull_destroyed);
        self.turret_destroyed = Some(sprites.turret_destroyed);
        self.bullet = Some(sprites.bullet);
        self.player1.hull.set_sprite(sprites.hull);
        self.player1.turret.set_sprite(sprites.turret);
        self.player2.hull.set_sprite(sprites.hull);
        self.player2.turret.set_sprite(sprites.turret);
        self.player2.mov_to(Vec2::new(START_OFFSET, 0));
    }

    /// Whether the event can be taken.
    pub fn input_fits(&self, inp: Input) -> (ok: bool)
        ensures
            ok == self@.can_input(inp),
    {
        match inp {
            Input::MouseRelease(MouseButton::Left) => self.bullet.is_some()
                && self.player1.fire_fits(),
            Input::MouseMove(x, y) => {
                let dx: i128 = (x as i128) - (self.scx as i128);
                let dy: i128 = (y as i128) - (self.scy as i128);
                (i64::MIN as i128) <= dx && dx <= (i64::MAX as i128) && (i64::MIN as i128) <= dy
                    && dy <= (i64::MAX as i128)
            },
            _ => true,
        }
    }

    /// Takes one input event.
    pub fn on_input(&mut self, inp: Input)
        requires
            old(self)@.can_input(inp),
        ensures
            final(self)@ == old(self)@.on_input_spec(inp),
    {
        match inp {
            Input::KeyDown(key) => {
                match key {
                    Key::Up => {
                        self.up_d = true;
                    },
                    Key::Down => {
                        self.down_d = true;
                    },
                    Key::Left => {
                        self.left_d = true;
                    },
                    Key::Right => {
                        self.right_d = true;
                    },
                }
            },
            Input::KeyUp(key) => {
                match key {
                    Key::Up => {
                        self.up_d = false;
                    },
                    Key::Down => {
                        self.down_d = false;
                    },
                    Key::Left => {
                        self.left_d = false;
                    },
                    Key::Right => {
                        self.right_d = false;
                    },
                }
            },
            Input::MouseRelease(button) => {
                match button {
                    MouseButton::Left => {
                        match self.bullet {
                            Some(sprite) => {
                                let bul: Bullet = self.player1.fire(sprite);
                                self.bullets.push(bul);
                            },
                            None => {},
                        }
                    },
                    MouseButton::Other => {},
                }
            },
            Input::MouseMove(x, y) => {
                self.player1.point_tur_to(x - self.scx, y - self.scy);
            },
        }
    }
}

/// Whether any of the projectiles stands in the vehicle's collision box.
pub open spec fn struck(t: Tank, bullets: Seq<Bullet>) -> bool {
    exists|i: int| 0 <= i < bullets.len() && t.hit_by((#[trigger] bullets[i]).bullet.trans.pos)
}

/// The vehicle after the projectiles were tested against it: a wreck where
/// one of them hit, unchanged where none did.
pub open spec fn after_strikes(t: Tank, bullets: Seq<Bullet>, hull: Sprite, turret: Sprite) -> Tank {
    if struck(t, bullets) {
        t.wrecked(hull, turret)
    } else {
        t
    }
}

/// A projectile after one tick: flagged where it stood in either vehicle's
/// box, and flown on in any case.
pub open spec fn flown(b: Bullet, first: Tank, second: Tank, dt: u32) -> Bullet {
    Bullet {
        to_be_removed: b.to_be_removed || first.hit_by(b.bullet.trans.pos) || second.hit_by(
            b.bullet.trans.pos,
        ),
        ..b.updated(dt)
    }
}

/// The projectiles that are not flagged, in their order.
pub open spec fn survivors(bullets: Seq<Bullet>) -> Seq<Bullet> {
    bullets.filter(|b: Bullet| !b.to_be_removed)
}

/// Whether the vehicle can be driven as the flags ask.
pub open spec fn can_drive(t: Tank, up: bool, down: bool, left: bool, dt: u32) -> bool {
    let a = if up && !t.is_destroyed {
        t.advanced((DRIVE_SPEED * dt) as i64).synced()
    } else {
        t
    };
    let b = if down && !a.is_destroyed {
        a.advanced((-(DRIVE_SPEED * dt)) as i64).synced()
    } else {
        a
    };
    &&& up && !t.is_destroyed ==> t.can_fwd((DRIVE_SPEED * dt) as i64)
    &&& down && !a.is_destroyed ==> a.can_fwd((-(DRIVE_SPEED * dt)) as i64)
    &&& left && !b.is_destroyed ==> b.can_rot((-(TURN_RATE * dt)) as i64)
}

/// The vehicle driven for `dt` as the flags ask, unless it is destroyed:
/// forward, backward, a turn to the left; the turret rides on the hull.
pub open spec fn driven(t: Tank, up: bool, down: bool, left: bool, dt: u32) -> Tank {
    let a = if up && !t.is_destroyed {
        t.advanced((DRIVE_SPEED * dt) as i64).synced()
    } else {
        t
    };
    let b = if down && !a.is_destroyed {
        a.advanced((-(DRIVE_SPEED * dt)) as i64).synced()
    } else {
        a
    };
    if left && !b.is_destroyed {
        b.turned((-(TURN_RATE * dt)) as i64)
    } else {
        b
    }
}

/// What drawing the projectiles adds to a frame, in their order.
pub open spec fn draw_all(bullets: Seq<Bullet>, view: Vec2) -> Seq<DrawCommand>
    decreases bullets.len(),
{
    if bullets.len() == 0 {
        Seq::empty()
    } else {
        draw_all(bullets.drop_last(), view) + bullets.last().draw_list(view)
    }
}

/// Filtering a sequence with one more projectile keeps that projectile
/// exactly where it is not flagged.
pub proof fn lemma_survivors_push(bullets: Seq<Bullet>, b: Bullet)
    ensures
        survivors(bullets.push(b)) == if b.to_be_removed {
            survivors(bullets)
        } else {
            survivors(bullets).push(b)
        },
{
    reveal(Seq::filter);
    assert(bullets.push(b).drop_last() =~= bullets);
}

/// No survivor is flagged.
pub proof fn lemma_survivors_unflagged(bullets: Seq<Bullet>)
    ensures
        forall|i: int|
            0 <= i < survivors(bullets).len() ==> !(#[trigger] survivors(bullets)[i]).to_be_removed,
{
    broadcast use vstd::seq_lib::group_filter_ensures;
}

impl Session {
    /// The centre of the screen as a view offset.
    pub open spec fn center(self) -> Vec2 {
        Vec2 { x: self.scx, y: self.scy }
    }

    /// The projectiles after each was tested against both vehicles and flown.
    pub open spec fn flown_bullets(self, dt: u32) -> Seq<Bullet> {
        Seq::new(
            self.bullets.len(),
            |i: int| flown(self.bullets[i], self.player1, self.player2, dt),
        )
    }

    /// Whether a tick of `dt` can be taken: the sprites of a wreck are there
    /// if a vehicle is hit, and every coordinate and angle stays within its
    /// type.
    pub open spec fn can_update(self, dt: u32) -> bool {
        &&& struck(self.player1, self.bullets) || struck(self.player2, self.bullets)
            ==> self.has_wreck_sprites()
        &&& forall|i: int| 0 <= i < self.bullets.len() ==> (#[trigger] self.bullets[i]).can_update(dt)
        &&& can_drive(
            after_strikes(
                self.player1,
                self.bullets,
                self.hull_destroyed.unwrap(),
                self.turret_destroyed.unwrap(),
            ),
            self.up_d,
            self.down_d,
            self.left_d,
            dt,
        )
    }

    /// The session after a tick of `dt`: every projectile is tested against
    /// the first vehicle and then the second, each vehicle that is hit becomes
    /// a wreck, every projectile flies on, the projectiles that hit leave, and
    /// the first vehicle is driven as the flags ask.
    pub open spec fn on_update_spec(self, dt: u32) -> Session {
        Session {
            player1: driven(
                after_strikes(
                    self.player1,
                    self.bullets,
                    self.hull_destroyed.unwrap(),
                    self.turret_destroyed.unwrap(),
                ),
                self.up_d,
                self.down_d,
                self.left_d,
                dt,
            ),
            player2: after_strikes(
                self.player2,
                self.bullets,
                self.hull_destroyed.unwrap(),
                self.turret_destroyed.unwrap(),
            ),
            bullets: survivors(self.flown_bullets(dt)),
            ..self
        }
    }

    /// The frame drawn from the session: cleared, then the first vehicle, the
    /// second, and the projectiles, all seen from the screen centre.
    pub open spec fn frame(self) -> Seq<DrawCommand> {
        seq![DrawCommand::Clear] + self.player1.draw_list(self.center())
            + self.player2.draw_list(self.center()) + draw_all(self.bullets, self.center())
    }
}

impl Game {
    /// Drops the flagged projectiles, keeping the others in their order.
    pub fn compact(&mut self)
        ensures
            final(self)@ == (Session { bullets: survivors(old(self)@.bullets), ..old(self)@ }),
            forall|i: int|
                0 <= i < final(self)@.bullets.len() ==> !(#[trigger] final(self)@.bullets[i]).to_be_removed,
    {
        let mut kept: Vec<Bullet> = Vec::new();
        let n: usize = self.bullets.len();
        let mut i: usize = 0;
        proof {
            reveal(Seq::filter);
            assert(self.bullets@.take(0) =~= Seq::<Bullet>::empty());
        }
        while i < n
            invariant
                i <= n,
                n == self.bullets@.len(),
                self@ == old(self)@,
                kept@ == survivors(self.bullets@.take(i as int)),
            decreases n - i,
        {
            let bul: Bullet = self.bullets[i];
            proof {
                lemma_survivors_push(self.bullets@.take(i as int), bul);
                assert(self.bullets@.take(i as int + 1) =~= self.bullets@.take(i as int).push(bul));
            }
            if bul.to_be_removed == false {
                kept.push(bul);
            }
            i = i + 1;
        }
        proof {
            assert(self.bullets@.take(n as int) =~= self.bullets@);
            lemma_survivors_unflagged(self.bullets@);
        }
        self.bullets = kept;
    }

    /// Whether a tick of `dt` can be taken.
    pub fn update_fits(&self, dt: u32) -> (ok: bool)
        ensures
            ok == self@.can_update(dt),
    {
        let n: usize = self.bullets.len();
        let mut hit1: bool = false;
        let mut hit2: bool = false;
        let mut i: usize = 0;
        proof {
            assert(self.bullets@.take(0) =~= Seq::<Bullet>::empty());
        }
        while i < n
            invariant
                i <= n,
                n == self.bullets@.len(),
                hit1 == struck(self.player1, self.bullets@.take(i as int)),
                hit2 == struck(self.player2, self.bullets@.take(i as int)),
                forall|j: int| 0 <= j < i ==> (#[trigger] self.bullets@[j]).can_update(dt),
            decreases n - i,
        {
            let bul: Bullet = self.bullets[i];
            proof {
                lemma_struck_push(self.player1, self.bullets@.take(i as int), bul);
                lemma_struck_push(self.player2, self.bullets@.take(i as int), bul);
                assert(self.bullets@.take(i as int + 1) =~= self.bullets@.take(i as int).push(bul));
            }
            if !bul.bullet.trans.fwd_fits(BULLET_SPEED * (dt as i64)) {
                assert(!self.bullets@[i as int].can_update(dt));
                return false;
            }
            if self.player1.collides(&bul) {
                hit1 = true;
            }
            if self.player2.collides(&bul) {
                hit2 = true;
            }
            i = i + 1;
        }
        proof {
            assert(self.bullets@.take(n as int) =~= self.bullets@);
        }
        let mut tank: Tank = self.player1;
        if hit1 || hit2 {
            match (self.hull_destroyed, self.turret_destroyed) {
                (Some(hull), Some(turret)) => {
                    if hit1 {
                        tank.destroy(hull, turret);
                    }
                },
                _ => {
                    return false;
                },
            }
        }
        if self.up_d && !tank.is_destroyed {
            if !tank.hull.trans.fwd_fits(DRIVE_SPEED * (dt as i64)) {
                return false;
            }
            tank.fwd(DRIVE_SPEED * (dt as i64));
            tank.sync_turret();
        }
        if self.down_d && !tank.is_destroyed {
            if !tank.hull.trans.fwd_fits(-(DRIVE_SPEED * (dt as i64))) {
                return false;
            }
            tank.fwd(-(DRIVE_SPEED * (dt as i64)));
            tank.sync_turret();
        }
        if self.left_d && !tank.is_destroyed {
            let turn: i128 = (-(TURN_RATE * (dt as i64))) as i128;
            let hull: i128 = (tank.hull.trans.rot as i128) + turn;
            let turret: i128 = (tank.turret.trans.rot as i128) + turn;
            if hull < (i64::MIN as i128) || turret < (i64::MIN as i128) {
                return false;
            }
        }
        true
    }

    /// Advances the session by `dt` millionths of a second.
    pub fn on_update(&mut self, dt: u32)
        requires
            old(self)@.can_update(dt),
        ensures
            final(self)@ == old(self)@.on_update_spec(dt),
            forall|i: int|
                0 <= i < final(self)@.bullets.len() ==> !(#[trigger] final(self)@.bullets[i]).to_be_removed,
    {
        let ghost before = self@;
        let n: usize = self.bullets.len();
        let mut i: usize = 0;
        proof {
            assert(before.bullets.take(0) =~= Seq::<Bullet>::empty());
        }
        while i < n
            invariant
                i <= n,
                n == before.bullets.len(),
                self.bullets@.len() == n,
                before.can_update(dt),
                forall|j: int|
                    0 <= j < i ==> self.bullets@[j] == flown(
                        #[trigger] before.bullets[j],
                        before.player1,
                        before.player2,
                        dt,
                    ),
                forall|j: int| i <= j < n ==> self.bullets@[j] == #[trigger] before.bullets[j],
                self.player1 == after_strikes(
                    before.player1,
                    before.bullets.take(i as int),
                    before.hull_destroyed.unwrap(),
                    before.turret_destroyed.unwrap(),
                ),
                self.player2 == after_strikes(
                    before.player2,
                    before.bullets.take(i as int),
                    before.hull_destroyed.unwrap(),
                    before.turret_destroyed.unwrap(),
                ),
                self@ == (Session {
                    player1: self.player1,
                    player2: self.player2,
                    bullets: self.bullets@,
                    ..before
                }),
            decreases n - i,
        {
            let mut bul: Bullet = self.bullets[i];
            proof {
                assert(bul == before.bullets[i as int]);
                lemma_struck_push(before.player1, before.bullets.take(i as int), bul);
                lemma_struck_push(before.player2, before.bullets.take(i as int), bul);
                assert(before.bullets.take(i as int + 1) =~= before.bullets.take(i as int).push(
                    bul,
                ));
                assert(self.player1.hit_by(bul.bullet.trans.pos) == before.player1.hit_by(
                    bul.bullet.trans.pos,
                ));
                assert(self.player2.hit_by(bul.bullet.trans.pos) == before.player2.hit_by(
                    bul.bullet.trans.pos,
                ));
            }
            strike(
                &mut self.player1,
                &mut self.player2,
                &mut bul,
                self.hull_destroyed,
                self.turret_destroyed,
                dt,
            );
            self.bullets.set(i, bul);
            i = i + 1;
        }
        proof {
            assert(before.bullets.take(n as int) =~= before.bullets);
            assert(self.bullets@ =~= before.flown_bullets(dt));
        }
        self.compact();
        if self.up_d && !self.player1.is_destroyed {
            self.player1.fwd(DRIVE_SPEED * (dt as i64));
            self.player1.sync_turret();
        }
        if self.down_d && !self.player1.is_destroyed {
            self.player1.fwd(-(DRIVE_SPEED * (dt as i64)));
            self.player1.sync_turret();
        }
        if self.left_d && !self.player1.is_destroyed {
            self.player1.rot(-(TURN_RATE * (dt as i64)));
        }
    }

    /// Takes the viewport's size in pixels, puts the screen centre in its
    /// middle and gives the frame to draw.
    pub fn on_draw(&mut self, width: u32, height: u32) -> (g: Vec<DrawCommand>)
        ensures
            final(self)@ == (Session {
                scx: ((width / 2) * ONE) as i64,
                scy: ((height / 2) * ONE) as i64,
                ..old(self)@
            }),
            g@ == final(self)@.frame(),
    {
        self.scx = ((width / 2) as i64) * ONE;
        self.scy = ((height / 2) as i64) * ONE;
        let center: Vec2 = Vec2::new(self.scx, self.scy);
        let mut g: Vec<DrawCommand> = Vec::new();
        g.push(DrawCommand::Clear);
        self.player1.render(&mut g, center);
        self.player2.render(&mut g, center);
        let ghost head = g@;
        let n: usize = self.bullets.len();
        let mut i: usize = 0;
        proof {
            assert(self.bullets@.take(0) =~= Seq::<Bullet>::empty());
            assert(head =~= seq![DrawCommand::Clear] + self.player1.draw_list(center)
                + self.player2.draw_list(center));
        }
        while i < n
            invariant
                i <= n,
                n == self.bullets@.len(),
                g@ == head + draw_all(self.bullets@.take(i as int), center),
            decreases n - i,
        {
            proof {
                let next = self.bullets@.take(i as int + 1);
                assert(next.drop_last() =~= self.bullets@.take(i as int));
                assert(next.last() == self.bullets@[i as int]);
            }
            self.bullets[i].render(&mut g, center);
            i = i + 1;
        }
        proof {
            assert(self.bullets@.take(n as int) =~= self.bullets@);
        }
        g
    }
}

/// The vehicle after one projectile was tested against it.
pub open spec fn after_strike(t: Tank, b: Bullet, hull: Sprite, turret: Sprite) -> Tank {
    if t.hit_by(b.bullet.trans.pos) {
        t.wrecked(hull, turret)
    } else {
        t
    }
}

/// Tests one projectile against the first vehicle and then the second, makes
/// a wreck of each that it stands in, flags it if it hit either, and flies it
/// on.
fn strike(
    first: &mut Tank,
    second: &mut Tank,
    bul: &mut Bullet,
    hull: Option<Sprite>,
    turret: Option<Sprite>,
    dt: u32,
)
    requires
        old(bul).can_update(dt),
        old(first).hit_by(old(bul).bullet.trans.pos) || old(second).hit_by(
            old(bul).bullet.trans.pos,
        ) ==> hull.is_some() && turret.is_some(),
    ensures
        *final(bul) == flown(*old(bul), *old(first), *old(second), dt),
        *final(first) == after_strike(*old(first), *old(bul), hull.unwrap(), turret.unwrap()),
        *final(second) == after_strike(*old(second), *old(bul), hull.unwrap(), turret.unwrap()),
{
    if first.collides(bul) {
        match (hull, turret) {
            (Some(h), Some(t)) => {
                first.destroy(h, t);
            },
            _ => {},
        }
        bul.to_be_removed = true;
    }
    if second.collides(bul) {
        match (hull, turret) {
            (Some(h), Some(t)) => {
                second.destroy(h, t);
            },
            _ => {},
        }
        bul.to_be_removed = true;
    }
    bul.update(dt);
}

/// One more projectile strikes a vehicle exactly where an earlier one did or
/// the new one stands in its box.
pub proof fn lemma_struck_push(t: Tank, bullets: Seq<Bullet>, b: Bullet)
    ensures
        struck(t, bullets.push(b)) == (struck(t, bullets) || t.hit_by(b.bullet.trans.pos)),
{
    let more = bullets.push(b);
    if struck(t, bullets) {
        let i = choose|i: int| 0 <= i < bullets.len() && t.hit_by((#[trigger] bullets[i]).bullet.trans.pos);
        assert(more[i] == bullets[i]);
    }
    if t.hit_by(b.bullet.trans.pos) {
        assert(more[bullets.len() as int] == b);
    }
    if struck(t, more) {
        let i = choose|i: int| 0 <= i < more.len() && t.hit_by((#[trigger] more[i]).bullet.trans.pos);
        if i < bullets.len() {
            assert(bullets[i] == more[i]);
        }
    }
}


} // verus!
