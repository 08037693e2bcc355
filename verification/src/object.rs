//! Drawable entities: components, vehicles and projectiles.
use vstd::prelude::*;
use crate::fixed::ONE;
use crate::shape::Cuboid2;
use crate::transform::{fits, Transform, Vec2};
use crate::trig::{atan2, atan2_micro};
use crate::turret::{track, track_step, TURRET_RATE};

verus! {

/// A handle on a loaded image: which image it is, and its size in pixels.
/// Handles are shared freely; no entity owns its image.
#[derive(Clone, Copy, Debug, PartialEq, Eq)]
pub struct Sprite {
    pub id: u32,
    pub width: u32,
    pub height: u32,
}

/// Half a pixel, in millionths of a pixel.
pub const HALF_PIXEL: i64 = 500_000;

/// One image to draw: the view offset, then the entity's position, scale and
/// rotation, and last the shift back by `pivot`, exactly half the image's
/// size in millionths of a pixel, which centres the image on the position.
#[derive(Clone, Copy, Debug, PartialEq, Eq)]
pub struct Image {
    pub sprite: Sprite,
    pub view: Vec2,
    pub trans: Transform,
    pub pivot: Vec2,
}

/// What the renderer is asked to do, in order.
#[derive(Clone, Copy, Debug, PartialEq, Eq)]
pub enum DrawCommand {
    Clear,
    Image(Image),
}

/// A transform paired with the sprite, if any, that shows it.
#[derive(Clone, Copy, Debug, PartialEq, Eq)]
pub struct Component {
    pub trans: Transform,
    pub sprite: Option<Sprite>,
}

impl Component {
    /// What drawing this component adds to a frame: one image where a sprite
    /// is set, nothing where none is.
    pub open spec fn draw_list(self, view: Vec2) -> Seq<DrawCommand> {
        match self.sprite {
            Some(sprite) => seq![
                DrawCommand::Image(
                    Image {
                        sprite,
                        view,
                        trans: self.trans,
                        pivot: Vec2 {
                            x: (sprite.width * HALF_PIXEL) as i64,
                            y: (sprite.height * HALF_PIXEL) as i64,
                        },
                    },
                ),
            ],
            None => Seq::empty(),
        }
    }

    /// At the origin, with no sprite.
    pub fn new() -> (c: Component)
        ensures
            c == (Component { trans: Transform::new_spec(), sprite: None }),
    {
        Component { trans: Transform::new(), sprite: None }
    }

    /// Appends to the frame `g` the image of this component seen from `view`;
    /// appends nothing where no sprite is set.
    pub fn render(&self, g: &mut Vec<DrawCommand>, view: Vec2)
        ensures
            final(g)@ == old(g)@ + self.draw_list(view),
    {
        match self.sprite {
            Some(sprite) => {
                let ocx: i64 = (sprite.width as i64) * HALF_PIXEL;
                let ocy: i64 = (sprite.height as i64) * HALF_PIXEL;
                g.push(
                    DrawCommand::Image(
                        Image { sprite, view, trans: self.trans, pivot: Vec2 { x: ocx, y: ocy } },
                    ),
                );
                assert(g@ == old(g)@ + self.draw_list(view));
            },
            None => {
                assert(g@ == old(g)@ + self.draw_list(view));
            },
        }
    }

    /// Replaces the sprite.
    pub fn set_sprite(&mut self, sprite: Sprite)
        ensures
            final(self).sprite == Some(sprite),
            final(self).trans == old(self).trans,
    {
        self.sprite = Some(sprite);
    }
}

/// How far ahead of the turret a projectile leaves the barrel.
pub const MUZZLE_OFFSET: i64 = 125_000_000;

/// The speed of a projectile, in units per second.
pub const BULLET_SPEED: i64 = 200;

/// Half the width of a vehicle's collision box.
pub const HULL_HALF_WIDTH: i64 = 38_000_000;

/// Half the length of a vehicle's collision box.
pub const HULL_HALF_LENGTH: i64 = 65_000_000;

/// What vehicles and projectiles have in common: they move, turn, advance
/// with time and draw themselves. Time is in millionths of a second.
pub trait Object: Sized {
    spec fn can_mov(&self, v: Vec2) -> bool;

    spec fn moved(&self, v: Vec2) -> Self;

    spec fn moved_to(&self, v: Vec2) -> Self;

    spec fn can_rot(&self, r: i64) -> bool;

    spec fn turned(&self, r: i64) -> Self;

    spec fn can_rot_to(&self, r: i64) -> bool;

    spec fn turned_to(&self, r: i64) -> Self;

    spec fn can_fwd(&self, d: i64) -> bool;

    spec fn advanced(&self, d: i64) -> Self;

    spec fn can_update(&self, dt: u32) -> bool;

    spec fn updated(&self, dt: u32) -> Self;

    spec fn draw_list(&self, view: Vec2) -> Seq<DrawCommand>;

    /// Moves by `pos`.
    fn mov(&mut self, pos: Vec2)
        requires
            old(self).can_mov(pos),
        ensures
            *final(self) == old(self).moved(pos),
    ;

    /// Moves to `pos`.
    fn mov_to(&mut self, pos: Vec2)
        ensures
            *final(self) == old(self).moved_to(pos),
    ;

    /// Turns by `r`.
    fn rot(&mut self, r: i64)
        requires
            old(self).can_rot(r),
        ensures
            *final(self) == old(self).turned(r),
    ;

    /// Turns to face `r`.
    fn rot_to(&mut self, r: i64)
        requires
            old(self).can_rot_to(r),
        ensures
            *final(self) == old(self).turned_to(r),
    ;

    /// Advances by the signed distance `d`.
    fn fwd(&mut self, d: i64)
        requires
            old(self).can_fwd(d),
        ensures
            *final(self) == old(self).advanced(d),
    ;

    /// Lets `dt` millionths of a second pass.
    fn update(&mut self, dt: u32)
        requires
            old(self).can_update(dt),
        ensures
            *final(self) == old(self).updated(dt),
    ;

    /// Appends to the frame `g` what draws this object seen from `view`.
    fn render(&self, g: &mut Vec<DrawCommand>, view: Vec2)
        ensures
            final(g)@ == old(g)@ + self.draw_list(view),
    ;
}

/// A vehicle: a hull and a turret on it, the box it is hit in, whether it has
/// been destroyed, and the point its turret is asked to face.
#[derive(Clone, Copy, Debug, PartialEq, Eq)]
pub struct Tank {
    pub hull: Component,
    pub turret: Component,
    pub collider: Cuboid2,
    pub is_destroyed: bool,
    pub point_to: Vec2,
}

/// A projectile and whether it is to leave the live collection.
#[derive(Clone, Copy, Debug, PartialEq, Eq)]
pub struct Bullet {
    pub bullet: Component,
    pub to_be_removed: bool,
}

impl Object for Bullet {
    open spec fn can_mov(&self, v: Vec2) -> bool {
        self.bullet.trans.can_mov(v)
    }

    open spec fn moved(&self, v: Vec2) -> Bullet {
        Bullet {
            bullet: Component {
                trans: Transform { pos: self.bullet.trans.pos.plus(v), ..self.bullet.trans },
                ..self.bullet
            },
            ..*self
        }
    }

    open spec fn moved_to(&self, v: Vec2) -> Bullet {
        Bullet {
            bullet: Component { trans: Transform { pos: v, ..self.bullet.trans }, ..self.bullet },
            ..*self
        }
    }

    open spec fn can_rot(&self, r: i64) -> bool {
        self.bullet.trans.can_rot(r)
    }

    open spec fn turned(&self, r: i64) -> Bullet {
        Bullet {
            bullet: Component {
                trans: Transform { rot: (self.bullet.trans.rot + r) as i64, ..self.bullet.trans },
                ..self.bullet
            },
            ..*self
        }
    }

    open spec fn can_rot_to(&self, r: i64) -> bool {
        true
    }

    open spec fn turned_to(&self, r: i64) -> Bullet {
        Bullet {
            bullet: Component { trans: Transform { rot: r, ..self.bullet.trans }, ..self.bullet },
            ..*self
        }
    }

    open spec fn can_fwd(&self, d: i64) -> bool {
        self.bullet.trans.can_fwd(d)
    }

    open spec fn advanced(&self, d: i64) -> Bullet {
        Bullet {
            bullet: Component { trans: self.bullet.trans.fwd_spec(d), ..self.bullet },
            ..*self
        }
    }

    /// A projectile can be updated where its flight of `BULLET_SPEED * dt`
    /// keeps it within the coordinates.
    open spec fn can_update(&self, dt: u32) -> bool {
        self.can_fwd((BULLET_SPEED * dt) as i64)
    }

    /// A projectile flies straight ahead at `BULLET_SPEED`.
    open spec fn updated(&self, dt: u32) -> Bullet {
        self.advanced((BULLET_SPEED * dt) as i64)
    }

    open spec fn draw_list(&self, view: Vec2) -> Seq<DrawCommand> {
        self.bullet.draw_list(view)
    }

    fn mov(&mut self, pos: Vec2) {
        self.bullet.trans.mov(pos);
    }

    fn mov_to(&mut self, pos: Vec2) {
        self.bullet.trans.mov_to(pos);
    }

    fn rot(&mut self, r: i64) {
        self.bullet.trans.rot(r);
    }

    fn rot_to(&mut self, r: i64) {
        self.bullet.trans.rot_to(r);
    }

    fn fwd(&mut self, d: i64) {
        self.bullet.trans.fwd(d);
    }

    fn update(&mut self, dt: u32) {
        let bullet_speed: i64 = BULLET_SPEED;
        self.fwd(bullet_speed * (dt as i64));
    }

    fn render(&self, g: &mut Vec<DrawCommand>, view: Vec2) {
        self.bullet.render(g, view);
    }
}

impl Tank {
    /// The angle that the turret is asked to face: that of the aim point seen
    /// from the hull, counted as rotations are.
    pub open spec fn aim(self) -> int {
        atan2_micro(
            -(self.point_to.x - self.hull.trans.pos.x),
            self.point_to.y - self.hull.trans.pos.y,
        )
    }

    /// The vehicle after its turret has turned toward the aim point for `dt`.
    pub open spec fn aimed(self, dt: u32) -> Tank {
        Tank {
            turret: Component {
                trans: Transform {
                    rot: track(self.turret.trans.rot as int, self.aim(), TURRET_RATE * dt) as i64,
                    ..self.turret.trans
                },
                ..self.turret
            },
            ..self
        }
    }

    /// The vehicle with its turret placed on its hull.
    pub open spec fn synced(self) -> Tank {
        Tank {
            turret: Component {
                trans: Transform { pos: self.hull.trans.pos, ..self.turret.trans },
                ..self.turret
            },
            ..self
        }
    }

    /// Where a projectile stands before it is pushed out of the barrel.
    pub open spec fn breech(self) -> Transform {
        Transform {
            pos: self.turret.trans.pos,
            scale: Vec2 { x: ONE, y: ONE },
            rot: self.turret.trans.rot,
        }
    }

    /// Whether the muzzle lies within the coordinates.
    pub open spec fn can_fire(self) -> bool {
        self.breech().can_fwd(MUZZLE_OFFSET)
    }

    /// The projectile that firing gives.
    pub open spec fn fired(self, sprite: Sprite) -> Bullet {
        Bullet {
            bullet: Component {
                trans: self.breech().fwd_spec(MUZZLE_OFFSET),
                sprite: Some(sprite),
            },
            to_be_removed: false,
        }
    }

    /// Whether `pt` lies in the collision box, which is centred on the hull
    /// and, in a sound vehicle, holds the hull's own position.
    pub open spec fn hit_by(self, pt: Vec2) -> bool {
        self.collider.contains(self.hull.trans.pos, pt)
    }

    /// Whether the vehicle is sound: its collision box has no negative
    /// extent. `Tank::new` makes such a vehicle and every function of the
    /// library keeps it so.
    pub open spec fn valid(self) -> bool {
        self.collider.half_extents.x >= 0 && self.collider.half_extents.y >= 0
    }

    /// The vehicle that every session starts with.
    pub open spec fn new_spec() -> Tank {
        Tank {
            hull: Component { trans: Transform::new_spec(), sprite: None },
            turret: Component { trans: Transform::new_spec(), sprite: None },
            collider: Cuboid2 { half_extents: Vec2 { x: HULL_HALF_WIDTH, y: HULL_HALF_LENGTH } },
            is_destroyed: false,
            point_to: Vec2 { x: 0, y: 0 },
        }
    }

    /// The vehicle showing the given sprites.
    pub open spec fn dressed(self, hull: Sprite, turret: Sprite) -> Tank {
        Tank {
            hull: Component { sprite: Some(hull), ..self.hull },
            turret: Component { sprite: Some(turret), ..self.turret },
            ..self
        }
    }

    /// A vehicle at the origin, intact, without sprites, aiming at the origin.
    pub fn new() -> (t: Tank)
        ensures
            t == Tank::new_spec(),
            t.valid(),
    {
        Tank {
            hull: Component::new(),
            turret: Component::new(),
            collider: Cuboid2::new(Vec2::new(HULL_HALF_WIDTH, HULL_HALF_LENGTH)),
            point_to: Vec2::new(0, 0),
            is_destroyed: false,
        }
    }

    /// Sets the point that the turret is to face.
    pub fn point_tur_to(&mut self, x: i64, y: i64)
        ensures
            *final(self) == (Tank { point_to: Vec2 { x, y }, ..*old(self) }),
    {
        self.point_to = Vec2::new(x, y);
    }

    /// The vehicle destroyed, showing the sprites of a wreck.
    pub open spec fn wrecked(self, hull: Sprite, turret: Sprite) -> Tank {
        Tank { is_destroyed: true, ..self.dressed(hull, turret) }
    }

    /// Marks the vehicle destroyed and gives it the sprites of a wreck.
    pub fn destroy(&mut self, hull: Sprite, turret: Sprite)
        ensures
            *final(self) == old(self).wrecked(hull, turret),
    {
        self.is_destroyed = true;
        self.hull.set_sprite(hull);
        self.turret.set_sprite(turret);
    }

    /// Places the turret on the hull.
    pub fn sync_turret(&mut self)
        ensures
            *final(self) == old(self).synced(),
    {
        self.turret.trans.mov_to(self.hull.trans.pos);
    }

    /// Turns the turret toward the aim point for `dt` at `TURRET_RATE`.
    pub fn calc_tur_pos(&mut self, dt: u32)
        ensures
            *final(self) == old(self).aimed(dt),
    {
        let dx: i128 = (self.point_to.x as i128) - (self.hull.trans.pos.x as i128);
        let dy: i128 = (self.point_to.y as i128) - (self.hull.trans.pos.y as i128);
        let new_rot: i64 = atan2(-dx, dy);
        let rot_speed: u64 = TURRET_RATE;
        let rot: i64 = track_step(self.turret.trans.rot, new_rot, rot_speed * (dt as u64));
        self.turret.trans.rot_to(rot);
    }

    /// Whether the projectile `b` stands in the collision box.
    pub fn collides(&self, b: &Bullet) -> (hit: bool)
        ensures
            hit == self.hit_by(b.bullet.trans.pos),
    {
        let bpnt: Vec2 = Vec2::new(b.bullet.trans.pos.x, b.bullet.trans.pos.y);
        self.collider.contains_point(&self.hull.trans.pos, &bpnt)
    }

    /// Whether the vehicle can fire: whether the muzzle lies within the
    /// coordinates.
    pub fn fire_fits(&self) -> (ok: bool)
        ensures
            ok == self.can_fire(),
    {
        let mut breech: Transform = Transform::new();
        breech.mov_to(self.turret.trans.pos);
        breech.rot_to(self.turret.trans.rot);
        breech.fwd_fits(MUZZLE_OFFSET)
    }

    /// A new projectile at the turret, facing as the turret does and pushed
    /// `MUZZLE_OFFSET` ahead so that it starts clear of the vehicle.
    pub fn fire(&self, sprite: Sprite) -> (bul: Bullet)
        requires
            self.can_fire(),
        ensures
            bul == self.fired(sprite),
    {
        let mut bul: Bullet = Bullet { bullet: Component::new(), to_be_removed: false };
        bul.mov_to(self.turret.trans.pos);
        bul.rot_to(self.turret.trans.rot);
        bul.fwd(MUZZLE_OFFSET);
        bul.bullet.set_sprite(sprite);
        bul
    }
}

impl Object for Tank {
    open spec fn can_mov(&self, v: Vec2) -> bool {
        self.hull.trans.can_mov(v) && self.turret.trans.can_mov(v)
    }

    /// Hull and turret move together.
    open spec fn moved(&self, v: Vec2) -> Tank {
        Tank {
            hull: Component {
                trans: Transform { pos: self.hull.trans.pos.plus(v), ..self.hull.trans },
                ..self.hull
            },
            turret: Component {
                trans: Transform { pos: self.turret.trans.pos.plus(v), ..self.turret.trans },
                ..self.turret
            },
            ..*self
        }
    }

    open spec fn moved_to(&self, v: Vec2) -> Tank {
        Tank {
            hull: Component { trans: Transform { pos: v, ..self.hull.trans }, ..self.hull },
            turret: Component { trans: Transform { pos: v, ..self.turret.trans }, ..self.turret },
            ..*self
        }
    }

    open spec fn can_rot(&self, r: i64) -> bool {
        self.hull.trans.can_rot(r) && self.turret.trans.can_rot(r)
    }

    /// Hull and turret turn together.
    open spec fn turned(&self, r: i64) -> Tank {
        Tank {
            hull: Component {
                trans: Transform { rot: (self.hull.trans.rot + r) as i64, ..self.hull.trans },
                ..self.hull
            },
            turret: Component {
                trans: Transform { rot: (self.turret.trans.rot + r) as i64, ..self.turret.trans },
                ..self.turret
            },
            ..*self
        }
    }

    open spec fn can_rot_to(&self, r: i64) -> bool {
        fits(self.turret.trans.rot + (r - self.hull.trans.rot))
    }

    /// The hull faces `r`; the turret turns by as much as the hull does.
    open spec fn turned_to(&self, r: i64) -> Tank {
        Tank {
            hull: Component { trans: Transform { rot: r, ..self.hull.trans }, ..self.hull },
            turret: Component {
                trans: Transform {
                    rot: (self.turret.trans.rot + (r - self.hull.trans.rot)) as i64,
                    ..self.turret.trans
                },
                ..self.turret
            },
            ..*self
        }
    }

    open spec fn can_fwd(&self, d: i64) -> bool {
        self.hull.trans.can_fwd(d)
    }

    /// Only the hull advances; the turret is placed on it again by `update`.
    open spec fn advanced(&self, d: i64) -> Tank {
        Tank { hull: Component { trans: self.hull.trans.fwd_spec(d), ..self.hull }, ..*self }
    }

    open spec fn can_update(&self, dt: u32) -> bool {
        true
    }

    /// The turret is placed on the hull and then tracks the aim point.
    open spec fn updated(&self, dt: u32) -> Tank {
        self.synced().aimed(dt)
    }

    /// The hull first, the turret over it.
    open spec fn draw_list(&self, view: Vec2) -> Seq<DrawCommand> {
        self.hull.draw_list(view) + self.turret.draw_list(view)
    }

    fn mov(&mut self, pos: Vec2) {
        self.hull.trans.mov(pos);
        self.turret.trans.mov(pos);
    }

    fn mov_to(&mut self, pos: Vec2) {
        self.hull.trans.mov_to(pos);
        self.turret.trans.mov_to(pos);
    }

    fn rot(&mut self, r: i64) {
        self.hull.trans.rot(r);
        self.turret.trans.rot(r);
    }

    fn rot_to(&mut self, r: i64) {
        let turn: i128 = (r as i128) - (self.hull.trans.rot as i128);
        let facing: i128 = (self.turret.trans.rot as i128) + turn;
        self.turret.trans.rot_to(facing as i64);
        self.hull.trans.rot_to(r);
    }

    fn fwd(&mut self, d: i64) {
        self.hull.trans.fwd(d);
    }

    fn update(&mut self, dt: u32) {
        self.sync_turret();
        self.calc_tur_pos(dt);
    }

    fn render(&self, g: &mut Vec<DrawCommand>, view: Vec2) {
        self.hull.render(g, view);
        self.turret.render(g, view);
        assert(g@ =~= old(g)@ + self.draw_list(view));
    }
}

} // verus!
