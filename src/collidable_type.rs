use vstd::prelude::*;

verus! {

/// The collision role of an entity, fixed when the entity is built.
#[derive(Clone, Copy, Debug, PartialEq, Eq, Structural)]
pub enum CollidableType {
    Unknown,
    SolidObstacle,
    Player,
    Collectable,
}

/// The integer code of a collision role.
pub open spec fn type_code(t: CollidableType) -> u32 {
    match t {
        CollidableType::Unknown => 0,
        CollidableType::SolidObstacle => 1,
        CollidableType::Player => 2,
        CollidableType::Collectable => 3,
    }
}

/// The collision role that an integer code stands for; any code outside
/// `1..=3` stands for `Unknown`.
pub open spec fn type_of_code(v: u32) -> CollidableType {
    if v == 1 {
        CollidableType::SolidObstacle
    } else if v == 2 {
        CollidableType::Player
    } else if v == 3 {
        CollidableType::Collectable
    } else {
        CollidableType::Unknown
    }
}

impl CollidableType {
    pub fn to_int(&self) -> (r: u32)
        ensures
            r == type_code(*self),
            r <= 3,
    {
        match self {
            CollidableType::SolidObstacle => 1,
            CollidableType::Player => 2,
            CollidableType::Collectable => 3,
            CollidableType::Unknown => 0,
        }
    }

    pub fn from_int(value: u32) -> (r: CollidableType)
        ensures
            r == type_of_code(value),
    {
        match value {
            1 => CollidableType::SolidObstacle,
            2 => CollidableType::Player,
            3 => CollidableType::Collectable,
            _ => CollidableType::Unknown,
        }
    }
}

} // verus!
