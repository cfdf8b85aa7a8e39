//! Distances, positions, directions and the tick clock.

use vstd::prelude::*;

verus! {

/// Game-distance units in one rendering pixel.
pub const GM_ONE_PIXEL: i64 = 10000;

/// Ticks in one second.
pub const UPDATES_PER_SECOND: i64 = 60;

/// Half the side of the play field: a position is on the field while neither
/// coordinate is further than this from zero. The field is small enough for
/// the spatial index to do its arithmetic on hitboxes anywhere on it without
/// leaving the range of the machine's integers.
pub const FIELD_LIMIT: i64 = 250_000_000;

/// A displacement in game-distance units.
#[derive(Clone, Copy, Debug, PartialEq, Eq, Structural)]
pub struct Vector {
    pub x: i64,
    pub y: i64,
}

/// A position in game-distance units.
#[derive(Clone, Copy, Debug, PartialEq, Eq, Structural)]
pub struct Point {
    pub x: i64,
    pub y: i64,
}

/// A direction, kept as the 32-bit pattern of its measure in radians.
///
/// The crate stores and compares directions; it never computes with them.
#[derive(Clone, Copy, Debug, PartialEq, Eq, Structural)]
pub struct Angle {
    pub bits: u32,
}

/// A tick count.
#[derive(Clone, Copy, Debug, PartialEq, Eq, Structural)]
pub struct Time(pub u64);

impl Vector {
    /// The displacement by `x` and `y`.
    pub fn new(x: i64, y: i64) -> (v: Self)
        ensures
            v == (Vector { x, y }),
    {
        Vector { x, y }
    }

    /// No displacement.
    pub fn zero() -> (v: Self)
        ensures
            v == (Vector { x: 0, y: 0 }),
    {
        Vector { x: 0, y: 0 }
    }
}

impl Point {
    /// The position at `x` and `y`.
    pub fn new(x: i64, y: i64) -> (p: Self)
        ensures
            p == (Point { x, y }),
    {
        Point { x, y }
    }

    /// The centre of the play field.
    pub fn origin() -> (p: Self)
        ensures
            p == (Point { x: 0, y: 0 }),
    {
        Point { x: 0, y: 0 }
    }

    /// Whether the position lies on the play field.
    pub open spec fn on_field(self) -> bool {
        &&& -FIELD_LIMIT <= self.x <= FIELD_LIMIT
        &&& -FIELD_LIMIT <= self.y <= FIELD_LIMIT
    }

    /// Whether the position moved by `v` can still be written down.
    pub open spec fn can_move(self, v: Vector) -> bool {
        &&& i64::MIN <= self.x + v.x <= i64::MAX
        &&& i64::MIN <= self.y + v.y <= i64::MAX
    }

    /// Whether the position moved by `v` lies on the play field.
    pub open spec fn lands_on_field(self, v: Vector) -> bool {
        &&& -FIELD_LIMIT <= self.x + v.x <= FIELD_LIMIT
        &&& -FIELD_LIMIT <= self.y + v.y <= FIELD_LIMIT
    }

    /// The position moved by `v`. Meant for use where `can_move` holds.
    pub open spec fn moved(self, v: Vector) -> Point {
        Point { x: (self.x + v.x) as i64, y: (self.y + v.y) as i64 }
    }

    /// Whether the position lies on the play field.
    pub fn is_on_field(&self) -> (on: bool)
        ensures
            on == self.on_field(),
    {
        -FIELD_LIMIT <= self.x && self.x <= FIELD_LIMIT && -FIELD_LIMIT <= self.y && self.y
            <= FIELD_LIMIT
    }

    /// The position moved by `v`, or nothing where a coordinate would leave
    /// the range of the machine's integers.
    pub fn checked_add(&self, v: &Vector) -> (out: Option<Point>)
        ensures
            out == if self.can_move(*v) {
                Some(self.moved(*v))
            } else {
                None::<Point>
            },
    {
        match (self.x.checked_add(v.x), self.y.checked_add(v.y)) {
            (Some(x), Some(y)) => Some(Point { x, y }),
            _ => None,
        }
    }
}

impl Angle {
    /// The direction with measure zero.
    pub fn zero() -> (a: Self)
        ensures
            a == (Angle { bits: 0 }),
    {
        Angle { bits: 0 }
    }
}

impl Time {
    /// The tick after this one; the count wraps to zero after its greatest
    /// value.
    pub open spec fn next(self) -> Time {
        Time(if self.0 == u64::MAX { 0 } else { (self.0 + 1) as u64 })
    }

    /// How many ticks passed from `start` to this tick, the count taken as a
    /// clock that wraps.
    pub open spec fn since(self, start: Time) -> int {
        if self.0 >= start.0 {
            self.0 - start.0
        } else {
            self.0 - start.0 + u64::MAX + 1
        }
    }

    /// The tick after this one.
    pub fn succ(&self) -> (t: Time)
        ensures
            t == self.next(),
    {
        Time(self.0.wrapping_add(1))
    }

    /// Ticks passed from `start` to this tick.
    pub fn elapsed(&self, start: &Time) -> (n: u64)
        ensures
            n == self.since(*start),
    {
        self.0.wrapping_sub(start.0)
    }
}

} // verus!
