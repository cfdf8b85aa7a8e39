//! The collision shape of a tank: a square that turns with the tank, and the
//! loose upright box the spatial index files it under.

use crate::geometry::{Angle, Point, Vector, GM_ONE_PIXEL};
use crate::store::Idx;
use crate::tank::Tank;
use vstd::prelude::*;

verus! {

/// Half the side of a tank's hitbox.
pub const TANK_SIZE: i64 = 20 * GM_ONE_PIXEL;

/// Half the side of the envelope: half the hitbox's diagonal, rounded down.
pub const ENVELOPE_LIMIT: i64 = 282_842;

/// An upright box, its corners included.
#[derive(Clone, Copy, Debug, PartialEq, Eq, Structural)]
pub struct Envelope {
    pub lower: Point,
    pub upper: Point,
}

impl Envelope {
    /// Whether `point` lies in the box.
    pub open spec fn holds(self, point: Point) -> bool {
        &&& self.lower.x <= point.x <= self.upper.x
        &&& self.lower.y <= point.y <= self.upper.y
    }

    /// Whether `point` lies in the box.
    pub fn contains(&self, point: &Point) -> (inside: bool)
        ensures
            inside == self.holds(*point),
    {
        self.lower.x <= point.x && point.x <= self.upper.x && self.lower.y <= point.y && point.y
            <= self.upper.y
    }
}

/// A tank's hitbox: a square of side `2 * TANK_SIZE` about `center`, turned
/// by `angle`.
#[derive(Clone, Copy, Debug, PartialEq, Eq, Structural)]
pub struct TankHitbox {
    pub center: Point,
    pub angle: Angle,
}

/// How far `coordinate` lies outside the span from `-TANK_SIZE` to
/// `TANK_SIZE`.
pub open spec fn excess(coordinate: int) -> int {
    if coordinate > TANK_SIZE {
        coordinate - TANK_SIZE
    } else if coordinate < -TANK_SIZE {
        -TANK_SIZE - coordinate
    } else {
        0
    }
}

impl TankHitbox {
    /// How far `point` lies from the centre along the x axis, with sign.
    pub open spec fn offset_x(self, point: Point) -> int {
        point.x - self.center.x
    }

    /// How far `point` lies from the centre along the y axis, with sign.
    pub open spec fn offset_y(self, point: Point) -> int {
        point.y - self.center.y
    }

    /// The square of the distance from the centre to `point`.
    pub open spec fn square_distance(self, point: Point) -> int {
        self.offset_x(point) * self.offset_x(point) + self.offset_y(point) * self.offset_y(point)
    }

    /// The upright box that reaches `ENVELOPE_LIMIT` from the centre to each
    /// side.
    pub open spec fn bounds(self) -> Envelope {
        Envelope {
            lower: Point {
                x: (self.center.x - ENVELOPE_LIMIT) as i64,
                y: (self.center.y - ENVELOPE_LIMIT) as i64,
            },
            upper: Point {
                x: (self.center.x + ENVELOPE_LIMIT) as i64,
                y: (self.center.y + ENVELOPE_LIMIT) as i64,
            },
        }
    }

    /// Whether `point` lies in the envelope: no further than `ENVELOPE_LIMIT`
    /// from the centre along either axis.
    pub open spec fn envelops(self, point: Point) -> bool {
        &&& -ENVELOPE_LIMIT <= self.offset_x(point) <= ENVELOPE_LIMIT
        &&& -ENVELOPE_LIMIT <= self.offset_y(point) <= ENVELOPE_LIMIT
    }

    /// Whether a point seen from the hitbox's own frame at `local` lies in
    /// the square.
    pub open spec fn in_frame(local: Vector) -> bool {
        &&& -TANK_SIZE <= local.x <= TANK_SIZE
        &&& -TANK_SIZE <= local.y <= TANK_SIZE
    }

    /// The square of the distance from `local`, a point in the hitbox's own
    /// frame, to the square.
    pub open spec fn frame_distance(local: Vector) -> int {
        excess(local.x as int) * excess(local.x as int) + excess(local.y as int) * excess(
            local.y as int,
        )
    }

    /// Whether the hitbox contains `point`, where `local` is `point` as seen
    /// from the hitbox's own frame: the vector from the centre to `point`,
    /// turned back by the hitbox's angle.
    ///
    /// A point outside the envelope, or further from the centre than the
    /// envelope's half-diagonal, is rejected whatever `local` says.
    pub open spec fn covers(self, point: Point, local: Vector) -> bool {
        &&& self.envelops(point)
        &&& self.square_distance(point) <= 2 * ENVELOPE_LIMIT * ENVELOPE_LIMIT
        &&& Self::in_frame(local)
    }

    /// The envelope of the hitbox.
    pub fn envelope(&self) -> (out: Envelope)
        requires
            self.center.on_field(),
        ensures
            out == self.bounds(),
            forall|point: Point| out.holds(point) == self.envelops(point),
    {
        Envelope {
            lower: Point { x: self.center.x - ENVELOPE_LIMIT, y: self.center.y - ENVELOPE_LIMIT },
            upper: Point { x: self.center.x + ENVELOPE_LIMIT, y: self.center.y + ENVELOPE_LIMIT },
        }
    }

    /// The square of the distance from `local` to the square, both in the
    /// hitbox's own frame.
    pub fn distance_relative(&self, local: &Vector) -> (d: i64)
        requires
            Self::frame_distance(*local) <= i64::MAX,
        ensures
            d == Self::frame_distance(*local),
    {
        let ex: i64 = excess_of(local.x);
        let ey: i64 = excess_of(local.y);
        assert(ex * ex >= 0 && ey * ey >= 0) by (nonlinear_arith);
        ex * ex + ey * ey
    }

    /// Whether the hitbox contains `point`; see [`TankHitbox::covers`].
    pub fn contains_point(&self, point: &Point, local: &Vector) -> (inside: bool)
        ensures
            inside == self.covers(*point, *local),
    {
        let reach: i64 = 2 * ENVELOPE_LIMIT;
        let dx: i64 = match point.x.checked_sub(self.center.x) {
            Some(d) => d,
            None => {
                proof {
                    lemma_far_square(self.offset_x(*point), self.offset_y(*point));
                }
                return false;
            },
        };
        let dy: i64 = match point.y.checked_sub(self.center.y) {
            Some(d) => d,
            None => {
                proof {
                    lemma_far_square(self.offset_y(*point), self.offset_x(*point));
                }
                return false;
            },
        };
        if dx > reach || dx < -reach {
            proof {
                lemma_far_square(dx as int, dy as int);
            }
            return false;
        }
        if dy > reach || dy < -reach {
            proof {
                lemma_far_square(dy as int, dx as int);
            }
            return false;
        }
        assert(0 <= dx * dx <= 4 * ENVELOPE_LIMIT * ENVELOPE_LIMIT && 0 <= dy * dy <= 4
            * ENVELOPE_LIMIT * ENVELOPE_LIMIT) by (nonlinear_arith)
            requires
                -2 * ENVELOPE_LIMIT <= dx <= 2 * ENVELOPE_LIMIT,
                -2 * ENVELOPE_LIMIT <= dy <= 2 * ENVELOPE_LIMIT,
        ;
        if dx * dx + dy * dy > 2 * ENVELOPE_LIMIT * ENVELOPE_LIMIT {
            return false;
        }
        if dx > ENVELOPE_LIMIT || dx < -ENVELOPE_LIMIT || dy > ENVELOPE_LIMIT || dy
            < -ENVELOPE_LIMIT {
            return false;
        }
        -TANK_SIZE <= local.x && local.x <= TANK_SIZE && -TANK_SIZE <= local.y && local.y
            <= TANK_SIZE
    }
}

/// How far `coordinate` lies outside the span from `-TANK_SIZE` to
/// `TANK_SIZE`.
fn excess_of(coordinate: i64) -> (e: i64)
    ensures
        e == excess(coordinate as int),
{
    if coordinate > TANK_SIZE {
        coordinate - TANK_SIZE
    } else if coordinate < -TANK_SIZE {
        -TANK_SIZE - coordinate
    } else {
        0
    }
}

/// A vector with one coordinate beyond twice the envelope's reach is longer
/// than the envelope's half-diagonal.
proof fn lemma_far_square(a: int, b: int)
    requires
        a > 2 * ENVELOPE_LIMIT || a < -2 * ENVELOPE_LIMIT,
    ensures
        a * a + b * b > 2 * ENVELOPE_LIMIT * ENVELOPE_LIMIT,
{
    assert(a * a > 4 * ENVELOPE_LIMIT * ENVELOPE_LIMIT && b * b >= 0) by (nonlinear_arith)
        requires
            a > 2 * ENVELOPE_LIMIT || a < -2 * ENVELOPE_LIMIT,
    ;
}

/// `ENVELOPE_LIMIT` is half the diagonal of the hitbox, rounded down.
pub proof fn lemma_envelope_limit()
    ensures
        ENVELOPE_LIMIT * ENVELOPE_LIMIT <= 2 * TANK_SIZE * TANK_SIZE,
        2 * TANK_SIZE * TANK_SIZE < (ENVELOPE_LIMIT + 1) * (ENVELOPE_LIMIT + 1),
{
    assert(ENVELOPE_LIMIT * ENVELOPE_LIMIT == 79_999_596_964) by (nonlinear_arith);
    assert(2 * TANK_SIZE * TANK_SIZE == 80_000_000_000) by (nonlinear_arith);
    assert((ENVELOPE_LIMIT + 1) * (ENVELOPE_LIMIT + 1) == 80_000_162_649) by (nonlinear_arith);
}

/// A point of the hitbox's own frame lies in the square exactly when its
/// distance to the square is zero.
pub proof fn lemma_frame_distance_zero(local: Vector)
    ensures
        TankHitbox::in_frame(local) <==> TankHitbox::frame_distance(local) == 0,
{
    let ex = excess(local.x as int);
    let ey = excess(local.y as int);
    assert(ex * ex >= 0 && ey * ey >= 0 && (ex != 0 ==> ex * ex > 0) && (ey != 0 ==> ey * ey > 0))
        by (nonlinear_arith);
}

/// A hitbox contains its own centre.
pub proof fn lemma_centre_covered(hitbox: TankHitbox)
    ensures
        hitbox.covers(hitbox.center, Vector { x: 0, y: 0 }),
        hitbox.envelops(hitbox.center),
{
}

/// A point outside the envelope, or further from the centre than the
/// envelope's half-diagonal, is never contained, whatever its place in the
/// hitbox's frame is said to be.
pub proof fn lemma_outside_not_covered(hitbox: TankHitbox, point: Point, local: Vector)
    requires
        !hitbox.envelops(point) || hitbox.square_distance(point) > 2 * ENVELOPE_LIMIT
            * ENVELOPE_LIMIT,
    ensures
        !hitbox.covers(point, local),
{
}

/// A point in the envelope is no further from the centre than the envelope's
/// half-diagonal.
pub proof fn lemma_envelope_within_reach(hitbox: TankHitbox, point: Point)
    requires
        hitbox.envelops(point),
    ensures
        hitbox.square_distance(point) <= 2 * ENVELOPE_LIMIT * ENVELOPE_LIMIT,
{
    let dx = hitbox.offset_x(point);
    let dy = hitbox.offset_y(point);
    assert(dx * dx <= ENVELOPE_LIMIT * ENVELOPE_LIMIT && dy * dy <= ENVELOPE_LIMIT
        * ENVELOPE_LIMIT) by (nonlinear_arith)
        requires
            -ENVELOPE_LIMIT <= dx <= ENVELOPE_LIMIT,
            -ENVELOPE_LIMIT <= dy <= ENVELOPE_LIMIT,
    ;
}

/// An entry of the spatial index: a hitbox and the slot of the tank it
/// belongs to.
#[derive(Clone, Copy, Debug, PartialEq, Eq)]
pub enum Hitbox {
    Tank(TankHitbox, Idx<Tank>),
}

impl Hitbox {
    /// The entry for the tank in slot `slot`, with its hitbox about `center`
    /// turned by `angle`.
    pub fn new(center: Point, angle: Angle, slot: usize) -> (out: Hitbox)
        ensures
            out == Hitbox::of(TankHitbox { center, angle }, slot),
    {
        Hitbox::Tank(TankHitbox { center, angle }, Idx::new(slot))
    }

    /// The entry for the tank in slot `idx` with hitbox `shape`.
    pub fn tank(shape: TankHitbox, idx: Idx<Tank>) -> (out: Hitbox)
        ensures
            out == Hitbox::of(shape, idx.slot),
    {
        Hitbox::Tank(shape, Idx::new(idx.slot))
    }

    /// The hitbox of the entry.
    pub fn hitbox(&self) -> (out: TankHitbox)
        ensures
            out == self.shape(),
    {
        match self {
            Hitbox::Tank(shape, _) => *shape,
        }
    }

    /// The slot of the tank that the entry belongs to.
    pub fn tank_slot(&self) -> (out: usize)
        ensures
            out == self.slot(),
    {
        match self {
            Hitbox::Tank(_, idx) => idx.slot,
        }
    }

    /// The envelope under which the entry is filed: that of its hitbox.
    pub fn envelope(&self) -> (out: Envelope)
        requires
            self.shape().center.on_field(),
        ensures
            out == self.shape().bounds(),
            forall|point: Point| out.holds(point) == self.shape().envelops(point),
    {
        match self {
            Hitbox::Tank(shape, _) => shape.envelope(),
        }
    }

    /// Whether the entry's hitbox contains `point`; see
    /// [`TankHitbox::covers`].
    pub fn contains_point(&self, point: &Point, local: &Vector) -> (inside: bool)
        ensures
            inside == self.shape().covers(*point, *local),
    {
        match self {
            Hitbox::Tank(shape, _) => shape.contains_point(point, local),
        }
    }

    /// An entry is its shape and its slot.
    pub proof fn lemma_of(self)
        ensures
            self == Hitbox::of(self.shape(), self.slot()),
    {
    }

    /// The shape of the entry.
    pub open spec fn shape(self) -> TankHitbox {
        match self {
            Hitbox::Tank(shape, _) => shape,
        }
    }

    /// The slot of the tank that the entry belongs to.
    pub open spec fn slot(self) -> usize {
        match self {
            Hitbox::Tank(_, idx) => idx.slot,
        }
    }

    /// The entry for the tank in slot `slot` with shape `shape`.
    pub open spec fn of(shape: TankHitbox, slot: usize) -> Hitbox {
        Hitbox::Tank(shape, Idx { slot, kind: core::marker::PhantomData })
    }
}

} // verus!
