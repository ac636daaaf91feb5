//! Gameplay events that travel over the event bus.
use crate::objects::{Color, PlayerMode};
use vstd::prelude::*;

verus! {

/// A discrete gameplay event. Forces are fixed point.
#[derive(Clone, Copy, Debug, PartialEq, Eq, Structural)]
pub enum Event {
    MovePlayer { id: u32, fx: i64, fy: i64 },
    SetPlayerMode { id: u32, mode: PlayerMode },
    ChangeColor { id: u32, color: Option<Color> },
    Quit,
}

} // verus!
