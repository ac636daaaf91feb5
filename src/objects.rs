//! The entity kinds of the arena: players, walls and collectibles.
use crate::dynamic::DynamicAttributes;
use crate::event::Event;
use crate::fixed::{in_coord_range, UNIT};
use crate::game_object::{drawable_range, GameObjectAttributes};
use std::ops::Range;
use vstd::prelude::*;

verus! {

/// Friction of a player in `NoClip` mode (`0.7`).
pub const NOCLIP_FRICTION: i64 = 700;

/// Mass of a player in `NoClip` mode (`1.4`).
pub const NOCLIP_MASS: i64 = 1400;

/// Side of a collectible (`10.0`).
pub const COLLECTIBLE_SIZE: i64 = 10 * UNIT;

/// How a player interacts with solid obstacles, and how it is shown.
#[derive(Clone, Copy, Debug, PartialEq, Eq, Structural)]
pub enum PlayerMode {
    Normal,
    NoClip,
}

/// An RGBA colour, one byte per channel.
#[derive(Clone, Copy, Debug, PartialEq, Eq, Structural)]
pub struct Color {
    pub r: u8,
    pub g: u8,
    pub b: u8,
    pub a: u8,
}

pub open spec fn spec_white() -> Color {
    Color { r: 255, g: 255, b: 255, a: 255 }
}

impl Color {
    pub fn white() -> (r: Color)
        ensures
            r == spec_white(),
    {
        Color { r: 255, g: 255, b: 255, a: 255 }
    }
}

/// A player-controlled entity with dynamics, a mode, a score and a colour.
/// `dynamic_data_default` keeps the mass and friction it was built with.
#[derive(Clone, Copy, Debug, PartialEq, Eq, Structural)]
pub struct Player {
    pub player_id: u32,
    pub player_mode: PlayerMode,
    pub dynamic_data: DynamicAttributes,
    pub dynamic_data_default: DynamicAttributes,
    pub obj_attr: GameObjectAttributes,
    pub score: u32,
    pub color_default: Color,
    pub color_current: Color,
}

impl Player {
    pub open spec fn wf(&self) -> bool {
        &&& self.obj_attr.wf()
        &&& self.dynamic_data.wf()
        &&& self.dynamic_data_default.wf()
    }

    /// The player after `set_mode(mode)`.
    pub open spec fn with_mode(self, mode: PlayerMode) -> Player {
        match mode {
            PlayerMode::Normal => Player {
                player_mode: mode,
                color_current: self.color_default,
                dynamic_data: DynamicAttributes {
                    friction: self.dynamic_data_default.friction,
                    mass: self.dynamic_data_default.mass,
                    ..self.dynamic_data
                },
                ..self
            },
            PlayerMode::NoClip => Player {
                player_mode: mode,
                color_current: spec_white(),
                dynamic_data: DynamicAttributes {
                    friction: NOCLIP_FRICTION,
                    mass: NOCLIP_MASS,
                    ..self.dynamic_data
                },
                ..self
            },
        }
    }

    /// The player after it handled `e`: an event addressed to another
    /// player, or one it has no use for, leaves it unchanged.
    pub open spec fn handled(self, e: Event) -> Player {
        match e {
            Event::MovePlayer { id, fx, fy } => if id == self.player_id {
                Player { dynamic_data: self.dynamic_data.with_force(fx, fy), ..self }
            } else {
                self
            },
            Event::ChangeColor { id, color } => if id == self.player_id {
                Player {
                    color_current: match color {
                        Some(c) => c,
                        None => self.color_default,
                    },
                    ..self
                }
            } else {
                self
            },
            Event::SetPlayerMode { id, mode } => if id == self.player_id {
                self.with_mode(mode)
            } else {
                self
            },
            Event::Quit => self,
        }
    }

    /// The player that `new` builds.
    pub open spec fn new_spec(
        player_id: u32,
        obj_id: u32,
        position_xy: (i64, i64),
        size_wh: (i64, i64),
        mass: i64,
        friction: i64,
        color: Color,
    ) -> Player {
        Player {
            player_id,
            player_mode: PlayerMode::Normal,
            dynamic_data: DynamicAttributes::new_spec(mass, friction),
            dynamic_data_default: DynamicAttributes::new_spec(mass, friction),
            obj_attr: GameObjectAttributes::new_spec(obj_id, position_xy, size_wh),
            score: 0,
            color_default: color,
            color_current: color,
        }
    }

    /// A player at rest in `Normal` mode with score zero.
    pub fn new(
        player_id: u32,
        obj_id: u32,
        position_xy: (i64, i64),
        size_wh: (i64, i64),
        mass: i64,
        friction: i64,
        color: Color,
    ) -> (r: Self)
        requires
            in_coord_range(position_xy.0 as int),
            in_coord_range(position_xy.1 as int),
            in_coord_range(size_wh.0 as int),
            in_coord_range(size_wh.1 as int),
            mass > 0,
        ensures
            r.wf(),
            r == Self::new_spec(player_id, obj_id, position_xy, size_wh, mass, friction, color),
    {
        Player {
            player_id,
            player_mode: PlayerMode::Normal,
            dynamic_data: DynamicAttributes::new(mass, friction),
            dynamic_data_default: DynamicAttributes::new(mass, friction),
            obj_attr: GameObjectAttributes::new(obj_id, position_xy, size_wh),
            score: 0,
            color_default: color,
            color_current: color,
        }
    }

    /// Switches the mode: `NoClip` shows the player white and gives it the
    /// `NoClip` friction and mass; `Normal` restores its own colour, friction
    /// and mass.
    pub fn set_mode(&mut self, mode: PlayerMode)
        requires
            old(self).wf(),
        ensures
            final(self).wf(),
            *final(self) == old(self).with_mode(mode),
    {
        match mode {
            PlayerMode::Normal => {
                self.color_current = self.color_default;
                let f = self.dynamic_data_default.friction;
                self.set_friction(f);
                self.dynamic_data.mass = self.dynamic_data_default.mass;
            },
            PlayerMode::NoClip => {
                self.color_current = Color::white();
                self.set_friction(NOCLIP_FRICTION);
                self.dynamic_data.mass = NOCLIP_MASS;
            },
        }
        self.player_mode = mode;
    }

    pub fn get_id(&self) -> (r: u32)
        ensures
            r == self.obj_attr.id,
    {
        self.obj_attr.id
    }

    pub fn set_id(&mut self, id: u32)
        ensures
            *final(self) == (Player {
                obj_attr: GameObjectAttributes { id, ..old(self).obj_attr },
                ..*old(self)
            }),
    {
        self.obj_attr.id = id;
    }

    pub fn set_velocity(&mut self, velocity_xy: (i64, i64))
        requires
            in_coord_range(velocity_xy.0 as int),
            in_coord_range(velocity_xy.1 as int),
        ensures
            *final(self) == (Player {
                dynamic_data: DynamicAttributes {
                    vel_x: velocity_xy.0,
                    vel_y: velocity_xy.1,
                    ..old(self).dynamic_data
                },
                ..*old(self)
            }),
    {
        self.dynamic_data.set_velocity(velocity_xy);
    }

    /// Stores the friction clamped into `[0, 1]`.
    pub fn set_friction(&mut self, friction: i64)
        ensures
            *final(self) == (Player {
                dynamic_data: DynamicAttributes {
                    friction: crate::dynamic::clamp_friction(friction as int) as i64,
                    ..old(self).dynamic_data
                },
                ..*old(self)
            }),
    {
        self.dynamic_data.set_friction(friction);
    }

    pub fn apply_force(&mut self, force: (i64, i64))
        ensures
            *final(self) == (Player {
                dynamic_data: old(self).dynamic_data.with_force(force.0, force.1),
                ..*old(self)
            }),
            old(self).wf() ==> final(self).wf(),
    {
        self.dynamic_data.apply_force(force);
    }

    /// Advances the player's dynamics by `delta_time`.
    pub fn update_position(&mut self, delta_time: i64)
        requires
            old(self).wf(),
        ensures
            final(self).wf(),
            *final(self) == old(self).stepped(delta_time as int),
    {
        self.dynamic_data.update_position(&mut self.obj_attr, delta_time);
    }

    /// The player after one dynamics step of `dt`.
    pub open spec fn stepped(self, dt: int) -> Player {
        let (d, b) = self.dynamic_data.stepped(self.obj_attr, dt);
        Player { dynamic_data: d, obj_attr: b, ..self }
    }

    /// Reacts to an event: a force, a colour or a mode addressed to this
    /// player's id; any other event is ignored.
    pub fn handle_busevent(&mut self, event: &Event)
        requires
            old(self).wf(),
        ensures
            final(self).wf(),
            *final(self) == old(self).handled(*event),
    {
        match event {
            Event::MovePlayer { id, fx, fy } => {
                if *id == self.player_id {
                    self.apply_force((*fx, *fy));
                }
            },
            Event::ChangeColor { id, color } => {
                if *id == self.player_id {
                    match color {
                        None => self.color_current = self.color_default,
                        Some(c) => self.color_current = *c,
                    }
                }
            },
            Event::SetPlayerMode { id, mode } => {
                if *id == self.player_id {
                    self.set_mode(*mode);
                }
            },
            Event::Quit => {},
        }
    }
}

/// An immovable solid obstacle.
#[derive(Clone, Copy, Debug, PartialEq, Eq, Structural)]
pub struct Wall {
    pub obj_attr: GameObjectAttributes,
}

impl Wall {
    pub fn new(id: u32, position_xy: (i64, i64), size_wh: (i64, i64)) -> (r: Self)
        requires
            in_coord_range(position_xy.0 as int),
            in_coord_range(position_xy.1 as int),
            in_coord_range(size_wh.0 as int),
            in_coord_range(size_wh.1 as int),
        ensures
            r.obj_attr.wf(),
            r.obj_attr == GameObjectAttributes::new_spec(id, position_xy, size_wh),
    {
        Wall { obj_attr: GameObjectAttributes::new(id, position_xy, size_wh) }
    }

    /// A wall with position and size drawn from the given half-open ranges.
    pub fn random(
        id: u32,
        position_xy: (Range<i64>, Range<i64>),
        size_wh: (Range<i64>, Range<i64>),
    ) -> (r: Self)
        requires
            drawable_range(position_xy.0),
            drawable_range(position_xy.1),
            drawable_range(size_wh.0),
            drawable_range(size_wh.1),
        ensures
            r.obj_attr.wf(),
            r.obj_attr.id == id,
            !r.obj_attr.request_deletion,
            position_xy.0.start <= r.obj_attr.x < position_xy.0.end,
            position_xy.1.start <= r.obj_attr.y < position_xy.1.end,
            size_wh.0.start <= r.obj_attr.width < size_wh.0.end,
            size_wh.1.start <= r.obj_attr.height < size_wh.1.end,
    {
        Wall { obj_attr: GameObjectAttributes::random(id, position_xy, size_wh) }
    }
}

/// An item that a player scores by touching; it then removes itself.
#[derive(Clone, Copy, Debug, PartialEq, Eq, Structural)]
pub struct Collectable {
    pub obj_attr: GameObjectAttributes,
}

impl Collectable {
    /// A collectible of the standard size at `(x, y)`.
    pub fn new(x: i64, y: i64) -> (r: Collectable)
        requires
            in_coord_range(x as int),
            in_coord_range(y as int),
        ensures
            r.obj_attr.wf(),
            r.obj_attr == GameObjectAttributes::new_spec(
                0,
                (x, y),
                (COLLECTIBLE_SIZE, COLLECTIBLE_SIZE),
            ),
    {
        Collectable {
            obj_attr: GameObjectAttributes::new(0, (x, y), (COLLECTIBLE_SIZE, COLLECTIBLE_SIZE)),
        }
    }

    /// A collectible placed at random in the given half-open ranges, its
    /// sides drawn from `[COLLECTIBLE_SIZE, COLLECTIBLE_SIZE + 1.0)`.
    pub fn random(position_xy: (Range<i64>, Range<i64>)) -> (r: Collectable)
        requires
            drawable_range(position_xy.0),
            drawable_range(position_xy.1),
        ensures
            r.obj_attr.wf(),
            r.obj_attr.id == 0,
            !r.obj_attr.request_deletion,
            position_xy.0.start <= r.obj_attr.x < position_xy.0.end,
            position_xy.1.start <= r.obj_attr.y < position_xy.1.end,
            COLLECTIBLE_SIZE <= r.obj_attr.width < COLLECTIBLE_SIZE + UNIT,
            COLLECTIBLE_SIZE <= r.obj_attr.height < COLLECTIBLE_SIZE + UNIT,
    {
        let widths = COLLECTIBLE_SIZE..COLLECTIBLE_SIZE + UNIT;
        let heights = COLLECTIBLE_SIZE..COLLECTIBLE_SIZE + UNIT;
        Collectable { obj_attr: GameObjectAttributes::random(0, position_xy, (widths, heights)) }
    }
}

} // verus!
