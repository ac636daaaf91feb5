//! Collision behaviour: the bounding-box overlap test, positional overlap
//! correction, impulse response and the per-kind reaction to a collision.
use crate::collidable_type::{type_code, CollidableType};
use crate::dynamic::DynamicAttributes;
use crate::fixed::{
    abs_int, clamp_coord, clamp_to_coord, div_toward_zero, lemma_trunc_div, trunc_div,
    COORD_LIMIT, UNIT,
};
use crate::game_object::GameObjectAttributes;
use crate::objects::{Collectable, Player, PlayerMode, Wall};
use vstd::prelude::*;

verus! {

/// Coefficient of restitution of the impulse response (`0.5`).
pub const RESTITUTION: i64 = 500;

/// Strict axis-aligned bounding-box intersection: boxes that only touch do
/// not overlap.
pub open spec fn overlaps(a: GameObjectAttributes, b: GameObjectAttributes) -> bool {
    &&& a.x < b.x + b.width
    &&& a.x + a.width > b.x
    &&& a.y < b.y + b.height
    &&& a.y + a.height > b.y
}

/// The overlap test does not depend on the order of its arguments.
pub proof fn lemma_overlap_symmetric(a: GameObjectAttributes, b: GameObjectAttributes)
    ensures
        overlaps(a, b) == overlaps(b, a),
{
}

/// A player in `NoClip` mode that meets a wall is neither moved nor slowed:
/// trying the collision leaves it exactly as it was.
pub proof fn lemma_noclip_passes_through(p: Player, w: Wall)
    requires
        p.player_mode == PlayerMode::NoClip,
    ensures
        Collidable::Player(p).tried(Collidable::Wall(w)) == Collidable::Player(p),
{
}

pub open spec fn min_int(a: int, b: int) -> int {
    if a < b {
        a
    } else {
        b
    }
}

/// Penetration depth of `s` into `o` along x.
pub open spec fn overlap_x(s: GameObjectAttributes, o: GameObjectAttributes) -> int {
    min_int(s.x + s.width - o.x, o.x + o.width - s.x)
}

/// Penetration depth of `s` into `o` along y.
pub open spec fn overlap_y(s: GameObjectAttributes, o: GameObjectAttributes) -> int {
    min_int(s.y + s.height - o.y, o.y + o.height - s.y)
}

/// `s` moved directly away from `o`, by the penetration depth, along the axis
/// on which that depth is smaller (y on a tie).
pub open spec fn compensated(
    s: GameObjectAttributes,
    o: GameObjectAttributes,
) -> GameObjectAttributes {
    let ox = overlap_x(s, o);
    let oy = overlap_y(s, o);
    if ox < oy {
        if s.x < o.x {
            GameObjectAttributes { x: clamp_coord(s.x - ox) as i64, ..s }
        } else {
            GameObjectAttributes { x: clamp_coord(s.x + ox) as i64, ..s }
        }
    } else {
        if s.y < o.y {
            GameObjectAttributes { y: clamp_coord(s.y - oy) as i64, ..s }
        } else {
            GameObjectAttributes { y: clamp_coord(s.y + oy) as i64, ..s }
        }
    }
}

/// Twice the offset from the centre of `o` to the centre of `s`, along x.
pub open spec fn normal_x(s: GameObjectAttributes, o: GameObjectAttributes) -> int {
    (2 * s.x + s.width) - (2 * o.x + o.width)
}

/// Twice the offset from the centre of `o` to the centre of `s`, along y.
pub open spec fn normal_y(s: GameObjectAttributes, o: GameObjectAttributes) -> int {
    (2 * s.y + s.height) - (2 * o.y + o.height)
}

/// The velocity of `d` projected on the collision normal, scaled by the
/// normal's length: its sign is the sign of the projected velocity.
pub open spec fn approach(
    d: DynamicAttributes,
    s: GameObjectAttributes,
    o: GameObjectAttributes,
) -> int {
    d.vel_x * normal_x(s, o) + d.vel_y * normal_y(s, o)
}

/// One velocity component after the impulse: with `n` the collision normal
/// (the centre offset `c` over its length), the velocity gains
/// `-(1 + RESTITUTION) * (v . n) * n`, that is
/// `-(1 + RESTITUTION) * (v . c) * c / |c|^2`.
pub open spec fn impulse_component(v: int, dot: int, c: int, c_sq: int) -> int {
    clamp_coord(v + trunc_div(-(UNIT + RESTITUTION) * dot * c, UNIT * c_sq))
}

/// The dynamics of `s` after its impulse response to `o`: unchanged where the
/// centres coincide or where `s` already moves away from `o` (projected
/// velocity at least zero).
pub open spec fn responded(
    d: DynamicAttributes,
    s: GameObjectAttributes,
    o: GameObjectAttributes,
) -> DynamicAttributes {
    let cx = normal_x(s, o);
    let cy = normal_y(s, o);
    let c_sq = cx * cx + cy * cy;
    let dot = approach(d, s, o);
    if c_sq == 0 || dot >= 0 {
        d
    } else {
        DynamicAttributes {
            vel_x: impulse_component(d.vel_x as int, dot, cx, c_sq) as i64,
            vel_y: impulse_component(d.vel_y as int, dot, cy, c_sq) as i64,
            ..d
        }
    }
}

/// A collidable entity: one variant per entity kind.
#[derive(Clone, Copy, Debug, PartialEq, Eq, Structural)]
pub enum Collidable {
    Player(Player),
    Wall(Wall),
    Collectable(Collectable),
}

impl Player {
    /// The player after it processed a collision with `other`: against a
    /// wall, a `Normal` player is moved out of it and then gets its impulse
    /// response, a `NoClip` one is left alone; against a collectible, its
    /// score grows by one, saturating at `u32::MAX`.
    pub open spec fn collided(self, other: Collidable) -> Player {
        match other {
            Collidable::Wall(_) => match self.player_mode {
                PlayerMode::Normal => {
                    let moved = compensated(self.obj_attr, other.attrs());
                    Player {
                        obj_attr: moved,
                        dynamic_data: responded(self.dynamic_data, moved, other.attrs()),
                        ..self
                    }
                },
                PlayerMode::NoClip => self,
            },
            Collidable::Collectable(_) => Player {
                score: if self.score < u32::MAX {
                    (self.score + 1) as u32
                } else {
                    self.score
                },
                ..self
            },
            Collidable::Player(_) => self,
        }
    }

    /// Moves the player out of `other` along the axis of least penetration.
    pub fn compensate_overlap(&mut self, other: &GameObjectAttributes)
        requires
            old(self).wf(),
            other.wf(),
        ensures
            final(self).wf(),
            *final(self) == (Player {
                obj_attr: compensated(old(self).obj_attr, *other),
                ..*old(self)
            }),
    {
        let s = self.obj_attr;
        let ox = min_i64(s.x + s.width - other.x, other.x + other.width - s.x);
        let oy = min_i64(s.y + s.height - other.y, other.y + other.height - s.y);
        if ox < oy {
            if s.x < other.x {
                self.obj_attr.x = clamp_to_coord(s.x as i128 - ox as i128);
            } else {
                self.obj_attr.x = clamp_to_coord(s.x as i128 + ox as i128);
            }
        } else {
            if s.y < other.y {
                self.obj_attr.y = clamp_to_coord(s.y as i128 - oy as i128);
            } else {
                self.obj_attr.y = clamp_to_coord(s.y as i128 + oy as i128);
            }
        }
    }

    /// Impulse response to `other`: where the player moves toward `other`,
    /// its velocity gets an impulse of `(1 + RESTITUTION)` times the closing
    /// speed along the normal between the centres; otherwise it is kept.
    pub fn change_dynamics(&mut self, other: &GameObjectAttributes)
        requires
            old(self).wf(),
            other.wf(),
        ensures
            final(self).wf(),
            *final(self) == (Player {
                dynamic_data: responded(old(self).dynamic_data, old(self).obj_attr, *other),
                ..*old(self)
            }),
            approach(old(self).dynamic_data, old(self).obj_attr, *other) >= 0
                ==> *final(self) == *old(self),
    {
        let s = self.obj_attr;
        let cx = (2 * s.x as i128 + s.width as i128) - (2 * other.x as i128 + other.width as i128);
        let cy = (2 * s.y as i128 + s.height as i128) - (2 * other.y as i128
            + other.height as i128);
        let vx = self.dynamic_data.vel_x as i128;
        let vy = self.dynamic_data.vel_y as i128;
        let ghost lim: int = COORD_LIMIT as int;
        proof {
            assert(abs_int(cx as int) <= 6 * lim && abs_int(cy as int) <= 6 * lim);
            assert(cx * cx <= 36 * lim * lim) by (nonlinear_arith)
                requires
                    -6 * lim <= cx <= 6 * lim,
                    lim > 0,
            ;
            assert(cy * cy <= 36 * lim * lim) by (nonlinear_arith)
                requires
                    -6 * lim <= cy <= 6 * lim,
                    lim > 0,
            ;
            assert(cx * cx >= 0 && cy * cy >= 0) by (nonlinear_arith);
            assert(abs_int(vx * cx) <= 6 * lim * lim) by (nonlinear_arith)
                requires
                    -6 * lim <= cx <= 6 * lim,
                    -lim <= vx <= lim,
                    lim > 0,
            ;
            assert(abs_int(vy * cy) <= 6 * lim * lim) by (nonlinear_arith)
                requires
                    -6 * lim <= cy <= 6 * lim,
                    -lim <= vy <= lim,
                    lim > 0,
            ;
        }
        let c_sq = cx * cx + cy * cy;
        let dot = vx * cx + vy * cy;
        if c_sq == 0 || dot >= 0 {
            return;
        }
        let k = (UNIT + RESTITUTION) as i128;
        let den = (UNIT as i128) * c_sq;
        proof {
            assert(abs_int(dot * cx) <= 72 * lim * lim * lim) by (nonlinear_arith)
                requires
                    -6 * lim <= cx <= 6 * lim,
                    -12 * lim * lim <= dot <= 12 * lim * lim,
                    lim > 0,
            ;
            assert(abs_int(dot * cy) <= 72 * lim * lim * lim) by (nonlinear_arith)
                requires
                    -6 * lim <= cy <= 6 * lim,
                    -12 * lim * lim <= dot <= 12 * lim * lim,
                    lim > 0,
            ;
            assert(-k * dot * cx == -(k * (dot * cx))) by (nonlinear_arith);
            assert(-k * dot * cy == -(k * (dot * cy))) by (nonlinear_arith);
            assert(abs_int(k * (dot * cx)) <= k * (72 * lim * lim * lim)) by (nonlinear_arith)
                requires
                    abs_int(dot * cx) <= 72 * lim * lim * lim,
                    k == 1500,
            ;
            assert(abs_int(k * (dot * cy)) <= k * (72 * lim * lim * lim)) by (nonlinear_arith)
                requires
                    abs_int(dot * cy) <= 72 * lim * lim * lim,
                    k == 1500,
            ;
            lemma_trunc_div(-k * dot * cx, den as int);
            lemma_trunc_div(-k * dot * cy, den as int);
        }
        let dvx = div_toward_zero(-(k * (dot * cx)), den);
        let dvy = div_toward_zero(-(k * (dot * cy)), den);
        self.dynamic_data.vel_x = clamp_to_coord(vx + dvx);
        self.dynamic_data.vel_y = clamp_to_coord(vy + dvy);
    }
}

impl Collidable {
    /// The bounds and deletion latch of the entity.
    pub open spec fn attrs(self) -> GameObjectAttributes {
        match self {
            Collidable::Player(p) => p.obj_attr,
            Collidable::Wall(w) => w.obj_attr,
            Collidable::Collectable(c) => c.obj_attr,
        }
    }

    pub open spec fn wf(self) -> bool {
        match self {
            Collidable::Player(p) => p.wf(),
            Collidable::Wall(w) => w.obj_attr.wf(),
            Collidable::Collectable(c) => c.obj_attr.wf(),
        }
    }

    pub open spec fn kind(self) -> CollidableType {
        match self {
            Collidable::Player(_) => CollidableType::Player,
            Collidable::Wall(_) => CollidableType::SolidObstacle,
            Collidable::Collectable(_) => CollidableType::Collectable,
        }
    }

    /// The entity after it processed a collision with `other`: a player
    /// reacts as `Player::collided` says, a collectible touched by a player
    /// requests its own deletion, and a wall does nothing.
    pub open spec fn collided(self, other: Collidable) -> Collidable {
        match self {
            Collidable::Player(p) => Collidable::Player(p.collided(other)),
            Collidable::Wall(w) => self,
            Collidable::Collectable(c) => if other is Player {
                Collidable::Collectable(
                    Collectable {
                        obj_attr: GameObjectAttributes { request_deletion: true, ..c.obj_attr },
                    },
                )
            } else {
                self
            },
        }
    }

    /// The entity after `try_collide(other)`.
    pub open spec fn tried(self, other: Collidable) -> Collidable {
        if overlaps(self.attrs(), other.attrs()) {
            self.collided(other)
        } else {
            self
        }
    }

    /// The entity with identifier `id`.
    pub open spec fn with_id(self, id: u32) -> Collidable {
        match self {
            Collidable::Player(p) => Collidable::Player(
                Player { obj_attr: GameObjectAttributes { id, ..p.obj_attr }, ..p },
            ),
            Collidable::Wall(w) => Collidable::Wall(
                Wall { obj_attr: GameObjectAttributes { id, ..w.obj_attr } },
            ),
            Collidable::Collectable(c) => Collidable::Collectable(
                Collectable { obj_attr: GameObjectAttributes { id, ..c.obj_attr } },
            ),
        }
    }

    /// The entity after one dynamics step of `dt`: players move, other
    /// entities stay.
    pub open spec fn stepped(self, dt: int) -> Collidable {
        match self {
            Collidable::Player(p) => Collidable::Player(p.stepped(dt)),
            _ => self,
        }
    }

    /// The entity after it handled event `e`: players react, other
    /// entities ignore events.
    pub open spec fn handled(self, e: crate::event::Event) -> Collidable {
        match self {
            Collidable::Player(p) => Collidable::Player(p.handled(e)),
            _ => self,
        }
    }

    /// Hands `event` to the entity; only players react.
    pub fn handle_busevent(&mut self, event: &crate::event::Event)
        requires
            old(self).wf(),
        ensures
            final(self).wf(),
            *final(self) == old(self).handled(*event),
    {
        match self {
            Collidable::Player(p) => p.handle_busevent(event),
            _ => {},
        }
    }

    pub fn set_id(&mut self, id: u32)
        requires
            old(self).wf(),
        ensures
            final(self).wf(),
            *final(self) == old(self).with_id(id),
    {
        match self {
            Collidable::Player(p) => p.obj_attr.id = id,
            Collidable::Wall(w) => w.obj_attr.id = id,
            Collidable::Collectable(c) => c.obj_attr.id = id,
        }
    }

    /// Advances a player's dynamics by `delta_time`; other entities stay.
    pub fn update_position(&mut self, delta_time: i64)
        requires
            old(self).wf(),
        ensures
            final(self).wf(),
            *final(self) == old(self).stepped(delta_time as int),
    {
        match self {
            Collidable::Player(p) => p.update_position(delta_time),
            _ => {},
        }
    }

    pub fn borrow_base_object(&self) -> (r: &GameObjectAttributes)
        ensures
            *r == self.attrs(),
    {
        match self {
            Collidable::Player(p) => &p.obj_attr,
            Collidable::Wall(w) => &w.obj_attr,
            Collidable::Collectable(c) => &c.obj_attr,
        }
    }

    pub fn get_x(&self) -> (r: i64)
        ensures
            r == self.attrs().x,
    {
        self.borrow_base_object().x
    }

    pub fn get_y(&self) -> (r: i64)
        ensures
            r == self.attrs().y,
    {
        self.borrow_base_object().y
    }

    pub fn get_width(&self) -> (r: i64)
        ensures
            r == self.attrs().width,
    {
        self.borrow_base_object().width
    }

    pub fn get_height(&self) -> (r: i64)
        ensures
            r == self.attrs().height,
    {
        self.borrow_base_object().height
    }

    pub fn get_id(&self) -> (r: u32)
        ensures
            r == self.attrs().id,
    {
        self.borrow_base_object().id
    }

    /// The integer code of the entity's collision role.
    pub fn get_collidable_type(&self) -> (r: u32)
        ensures
            r == type_code(self.kind()),
    {
        match self {
            Collidable::Player(_) => CollidableType::Player.to_int(),
            Collidable::Wall(_) => CollidableType::SolidObstacle.to_int(),
            Collidable::Collectable(_) => CollidableType::Collectable.to_int(),
        }
    }

    /// Whether the bounding boxes of the two entities overlap.
    pub fn is_collides(&self, other: &Collidable) -> (r: bool)
        requires
            self.wf(),
            other.wf(),
        ensures
            r == overlaps(self.attrs(), other.attrs()),
    {
        let (sx, sy, sw, sh) = (self.get_x(), self.get_y(), self.get_width(), self.get_height());
        let (ox, oy, ow, oh) = (
            other.get_x(),
            other.get_y(),
            other.get_width(),
            other.get_height(),
        );
        sx < ox + ow && sx + sw > ox && sy < oy + oh && sy + sh > oy
    }

    /// The entity's reaction to a collision with `other`.
    pub fn process_collision(&mut self, other: &Collidable)
        requires
            old(self).wf(),
            other.wf(),
        ensures
            final(self).wf(),
            *final(self) == old(self).collided(*other),
            final(self).attrs().id == old(self).attrs().id,
    {
        let other_type = CollidableType::from_int(other.get_collidable_type());
        match self {
            Collidable::Player(p) => {
                match other_type {
                    CollidableType::SolidObstacle => {
                        match p.player_mode {
                            PlayerMode::Normal => {
                                let o = other.borrow_base_object();
                                p.compensate_overlap(o);
                                p.change_dynamics(o);
                            },
                            PlayerMode::NoClip => {},
                        }
                    },
                    CollidableType::Collectable => {
                        p.score = p.score.saturating_add(1);
                    },
                    _ => {},
                }
            },
            Collidable::Wall(_) => {},
            Collidable::Collectable(c) => {
                if other.get_collidable_type() == CollidableType::Player.to_int() {
                    c.obj_attr.request_deletion();
                }
            },
        }
    }

    /// Processes a collision with `other` if the two overlap.
    pub fn try_collide(&mut self, other: &Collidable)
        requires
            old(self).wf(),
            other.wf(),
        ensures
            final(self).wf(),
            *final(self) == old(self).tried(*other),
            final(self).attrs().id == old(self).attrs().id,
    {
        if self.is_collides(other) {
            self.process_collision(other);
        }
    }
}

fn min_i64(a: i64, b: i64) -> (r: i64)
    ensures
        r == min_int(a as int, b as int),
{
    if a < b {
        a
    } else {
        b
    }
}

} // verus!
