//! Simulation core of a two-player top-down arena game: entities that move
//! under force-driven dynamics, collide with each other and with static
//! obstacles, and exchange gameplay events over a publish-subscribe bus.
//!
//! Every real-valued quantity is held in fixed point, as a count of
//! thousandths (see `fixed`).

pub mod collidable;
pub mod collidable_type;
pub mod dynamic;
pub mod event;
pub mod fixed;
pub mod game_object;
pub mod objects;
mod random;
pub mod sys_collision;
pub mod sys_event;
pub mod sys_input;
pub mod sys_osd;
pub mod universe;
pub mod world;
