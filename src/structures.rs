use vstd::prelude::*;

pub use crate::geometry::Collision;
use crate::geometry::{Circle, Rect, Vec2};
use crate::layout::{ArenaBounds, ARENA_LIMIT};

verus! {

/// The player's paddle: a rectangle given by its centre and half-extents.
#[derive(Clone, Copy, Debug, PartialEq, Eq, Structural)]
pub struct Paddle {
    pub center: Vec2,
    pub half_size: Vec2,
}

impl Paddle {
    pub open spec fn body_spec(self) -> Rect {
        Rect {
            min: Vec2 {
                x: (self.center.x - self.half_size.x) as i64,
                y: (self.center.y - self.half_size.y) as i64,
            },
            max: Vec2 {
                x: (self.center.x + self.half_size.x) as i64,
                y: (self.center.y + self.half_size.y) as i64,
            },
        }
    }

    /// Centre and half-extents small enough for the body to be a valid rectangle.
    pub open spec fn in_range(self) -> bool {
        &&& self.center.within(ARENA_LIMIT as int)
        &&& 0 <= self.half_size.x <= ARENA_LIMIT
        &&& 0 <= self.half_size.y <= ARENA_LIMIT
    }

    pub fn body(&self) -> (r: Rect)
        requires
            self.in_range(),
        ensures
            r == self.body_spec(),
            r.wf(),
    {
        Rect::from_center(self.center, self.half_size)
    }
}

/// The ball.
#[derive(Clone, Copy, Debug, PartialEq, Eq, Structural)]
pub struct Ball {
    pub body: Circle,
}

/// The ball's displacement per tick.
#[derive(Clone, Copy, Debug, PartialEq, Eq, Structural)]
pub struct Velocity(pub Vec2);

/// A static rectangular body that the ball bounces off.
#[derive(Clone, Copy, Debug, PartialEq, Eq, Structural)]
pub struct Collider {
    pub body: Rect,
}

/// The signal that a collision was resolved in a tick.
#[derive(Clone, Copy, Debug, PartialEq, Eq, Structural)]
pub struct CollisionEvent;

/// A destructible brick.
#[derive(Clone, Copy, Debug, PartialEq, Eq, Structural)]
pub struct Brick {
    pub collider: Collider,
}

/// The running score.
#[derive(Clone, Copy, Debug, PartialEq, Eq, Structural)]
pub struct Scoreboard {
    pub score: usize,
}

impl Scoreboard {
    pub fn new() -> (r: Scoreboard)
        ensures
            r.score == 0,
    {
        Scoreboard { score: 0 }
    }

    pub fn increment(&mut self, by: usize)
        requires
            old(self).score + by <= usize::MAX,
        ensures
            final(self).score == old(self).score + by,
    {
        self.score = self.score + by;
    }

    pub fn value(&self) -> (r: usize)
        ensures
            r == self.score,
    {
        self.score
    }
}

/// Which side of the arena a wall is on.
#[derive(Clone, Copy, Debug, PartialEq, Eq, Structural)]
pub enum WallLocation {
    Left,
    Right,
    Bottom,
    Top,
}

impl WallLocation {
    /// The wall runs along its edge of the arena, centred on it, `thickness / 2` to each side,
    /// and reaches as far past the corners.
    pub open spec fn rect_spec(self, b: ArenaBounds, thickness: int) -> Rect {
        let h = thickness / 2;
        let (x0, y0, x1, y1) = match self {
            WallLocation::Left => (b.left_wall - h, b.bottom_wall - h, b.left_wall + h, b.top_wall + h),
            WallLocation::Right => (b.right_wall - h, b.bottom_wall - h, b.right_wall + h, b.top_wall + h),
            WallLocation::Bottom => (b.left_wall - h, b.bottom_wall - h, b.right_wall + h, b.bottom_wall + h),
            WallLocation::Top => (b.left_wall - h, b.top_wall - h, b.right_wall + h, b.top_wall + h),
        };
        Rect { min: Vec2 { x: x0 as i64, y: y0 as i64 }, max: Vec2 { x: x1 as i64, y: y1 as i64 } }
    }

    pub fn rect(&self, b: ArenaBounds, thickness: i64) -> (r: Rect)
        requires
            b.wf(),
            0 <= thickness <= ARENA_LIMIT,
        ensures
            r == self.rect_spec(b, thickness as int),
            r.wf(),
    {
        let h: i64 = thickness / 2;
        let (x0, y0, x1, y1) = match self {
            WallLocation::Left => (b.left_wall - h, b.bottom_wall - h, b.left_wall + h, b.top_wall + h),
            WallLocation::Right => (b.right_wall - h, b.bottom_wall - h, b.right_wall + h, b.top_wall + h),
            WallLocation::Bottom => (b.left_wall - h, b.bottom_wall - h, b.right_wall + h, b.bottom_wall + h),
            WallLocation::Top => (b.left_wall - h, b.top_wall - h, b.right_wall + h, b.top_wall + h),
        };
        Rect { min: Vec2 { x: x0, y: y0 }, max: Vec2 { x: x1, y: y1 } }
    }
}

/// A wall: where it stands and its body.
#[derive(Clone, Copy, Debug, PartialEq, Eq, Structural)]
pub struct WallBundle {
    pub location: WallLocation,
    pub collider: Collider,
}

impl WallBundle {
    pub fn new(location: WallLocation, b: ArenaBounds, thickness: i64) -> (r: WallBundle)
        requires
            b.wf(),
            0 <= thickness <= ARENA_LIMIT,
        ensures
            r.location == location,
            r.collider.body == location.rect_spec(b, thickness as int),
            r.collider.body.wf(),
    {
        WallBundle { location, collider: Collider { body: location.rect(b, thickness) } }
    }
}

} // verus!
