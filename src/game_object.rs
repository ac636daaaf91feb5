//! Attributes every entity carries: identity, bounds and the deletion latch.
use crate::fixed::in_coord_range;
use crate::random::random_in;
use std::ops::Range;
use vstd::prelude::*;

verus! {

/// Identity, axis-aligned bounds (top-left corner and size) and the
/// soft-deletion latch of an entity.
#[derive(Clone, Copy, Debug, PartialEq, Eq, Structural)]
pub struct GameObjectAttributes {
    pub id: u32,
    pub x: i64,
    pub y: i64,
    pub width: i64,
    pub height: i64,
    pub request_deletion: bool,
}

/// A half-open range of coordinates from which a value can be drawn.
pub open spec fn drawable_range(r: Range<i64>) -> bool {
    r.start < r.end && in_coord_range(r.start as int) && in_coord_range(r.end as int)
}

impl GameObjectAttributes {
    /// The attributes that `new` builds.
    pub open spec fn new_spec(id: u32, position_xy: (i64, i64), size_wh: (i64, i64)) -> Self {
        GameObjectAttributes {
            id,
            x: position_xy.0,
            y: position_xy.1,
            width: size_wh.0,
            height: size_wh.1,
            request_deletion: false,
        }
    }

    /// Every coordinate and size lies in the fixed-point coordinate range.
    pub open spec fn wf(&self) -> bool {
        &&& in_coord_range(self.x as int)
        &&& in_coord_range(self.y as int)
        &&& in_coord_range(self.width as int)
        &&& in_coord_range(self.height as int)
    }

    pub fn new(id: u32, position_xy: (i64, i64), size_wh: (i64, i64)) -> (r: Self)
        requires
            in_coord_range(position_xy.0 as int),
            in_coord_range(position_xy.1 as int),
            in_coord_range(size_wh.0 as int),
            in_coord_range(size_wh.1 as int),
        ensures
            r.wf(),
            r == Self::new_spec(id, position_xy, size_wh),
    {
        GameObjectAttributes {
            id,
            x: position_xy.0,
            y: position_xy.1,
            width: size_wh.0,
            height: size_wh.1,
            request_deletion: false,
        }
    }

    /// Attributes with position and size drawn at random from the given
    /// half-open ranges.
    pub fn random(
        id: u32,
        position_xy: (Range<i64>, Range<i64>),
        size_wh: (Range<i64>, Range<i64>),
    ) -> (r: Self)
        requires
            drawable_range(position_xy.0),
            drawable_range(position_xy.1),
            drawable_range(size_wh.0),
            drawable_range(size_wh.1),
        ensures
            r.wf(),
            r.id == id,
            !r.request_deletion,
            position_xy.0.start <= r.x < position_xy.0.end,
            position_xy.1.start <= r.y < position_xy.1.end,
            size_wh.0.start <= r.width < size_wh.0.end,
            size_wh.1.start <= r.height < size_wh.1.end,
    {
        let x = random_in(position_xy.0.start, position_xy.0.end);
        let y = random_in(position_xy.1.start, position_xy.1.end);
        let width = random_in(size_wh.0.start, size_wh.0.end);
        let height = random_in(size_wh.1.start, size_wh.1.end);
        GameObjectAttributes { id, x, y, width, height, request_deletion: false }
    }

    pub fn get_position(&self) -> (r: (i64, i64))
        ensures
            r == (self.x, self.y),
    {
        (self.x, self.y)
    }

    pub fn set_position(&mut self, position_xy: (i64, i64))
        ensures
            *final(self) == (GameObjectAttributes {
                x: position_xy.0,
                y: position_xy.1,
                ..*old(self)
            }),
    {
        self.x = position_xy.0;
        self.y = position_xy.1;
    }

    /// Latches the deletion request; it is never cleared.
    pub fn request_deletion(&mut self)
        ensures
            *final(self) == (GameObjectAttributes { request_deletion: true, ..*old(self) }),
    {
        self.request_deletion = true;
    }

    pub fn is_deletion_requested(&self) -> (r: bool)
        ensures
            r == self.request_deletion,
    {
        self.request_deletion
    }
}

} // verus!
