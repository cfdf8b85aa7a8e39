//! What the caller's trigonometry contributes to a tick.
//!
//! A tick turns tanks, moves tanks and bullets along their headings, and
//! tests bullets against hitboxes that are turned. The crate does none of
//! that arithmetic itself: for each tank and each bullet the caller supplies
//! the outcome as directions and whole-number vectors, and the tick is a
//! function of the world and of these.

use crate::geometry::{Angle, Vector};
use crate::input::{Drive, Input};
use crate::store::Idx;
use crate::tank::Tank;
use vstd::prelude::*;

verus! {

/// The speed of a driving tank, in pixels for each second.
pub const TANK_SPEED: i64 = 280;

/// The speed of a bullet, in pixels for each second.
pub const BULLET_SPEED: i64 = 1000;

/// How far the muzzle lies from the centre of the tank, in pixels.
pub const MUZZLE_REACH: i64 = 40;

/// Where a point lies in the frame of one tank's hitbox.
#[derive(Clone, Copy, Debug, PartialEq, Eq)]
pub struct Local {
    /// The slot of the tank.
    pub tank: Idx<Tank>,
    /// The vector from the hitbox's centre to the point, turned back by the
    /// hitbox's angle.
    pub point: Vector,
}

/// A question to the caller's trigonometry: where does a point lie in the
/// frame of one tank's hitbox?
#[derive(Clone, Copy, Debug, PartialEq, Eq)]
pub struct Probe {
    /// The slot of the tank.
    pub tank: Idx<Tank>,
    /// The angle by which the hitbox is turned.
    pub angle: Angle,
    /// The vector from the hitbox's centre to the point, not yet turned back.
    pub offset: Vector,
}

/// The motion of one tank under the input its player has latched.
#[derive(Clone, Copy, Debug, PartialEq, Eq)]
pub struct TankMotion {
    /// The facing after the turn that the input asks for.
    pub angle: Angle,
    /// The turret's facing after the turn that the input asks for.
    pub turret_angle: Angle,
    /// The way the tank covers in this tick if it drives forward along its
    /// new facing, at [`TANK_SPEED`].
    pub forward: Vector,
    /// The way the tank covers in this tick if it drives in reverse along its
    /// new facing.
    pub reverse: Vector,
    /// The place of the muzzle, relative to the tank: [`MUZZLE_REACH`] along
    /// the turret's new facing.
    pub muzzle: Vector,
}

impl TankMotion {
    /// The motion of a tank that keeps the facings `angle` and
    /// `turret_angle` and covers no way.
    pub fn still(angle: Angle, turret_angle: Angle) -> (motion: TankMotion)
        ensures
            motion == (TankMotion {
                angle,
                turret_angle,
                forward: Vector { x: 0, y: 0 },
                reverse: Vector { x: 0, y: 0 },
                muzzle: Vector { x: 0, y: 0 },
            }),
    {
        TankMotion {
            angle,
            turret_angle,
            forward: Vector::zero(),
            reverse: Vector::zero(),
            muzzle: Vector::zero(),
        }
    }

    /// The way the tank covers in this tick under `input`: forward or in
    /// reverse as the input asks, nothing where it asks for neither.
    pub open spec fn step(self, input: Input) -> Vector {
        match input.drive {
            Some(Drive::Forward) => self.forward,
            Some(Drive::Reverse) => self.reverse,
            None => Vector { x: 0, y: 0 },
        }
    }

    /// The way the tank covers in this tick under `input`.
    pub fn step_for(&self, input: &Input) -> (v: Vector)
        ensures
            v == self.step(*input),
    {
        match input.drive {
            Some(Drive::Forward) => self.forward,
            Some(Drive::Reverse) => self.reverse,
            None => Vector::zero(),
        }
    }
}

/// The motion of one bullet.
#[derive(Debug, PartialEq, Eq)]
pub struct BulletMotion {
    /// The way the bullet covers in this tick along its heading, at
    /// [`BULLET_SPEED`].
    pub step: Vector,
    /// The bullet's new position as seen from the hitboxes it may be in.
    pub locals: Vec<Local>,
}

/// The motion of everything in the world for one tick.
#[derive(Debug, PartialEq, Eq)]
pub struct Motions {
    /// One entry for each tank slot, vacant ones included.
    pub tanks: Vec<TankMotion>,
    /// One entry for each bullet.
    pub bullets: Vec<BulletMotion>,
}

/// The model of a [`BulletMotion`].
pub struct BulletPath {
    pub step: Vector,
    pub locals: Seq<Local>,
}

/// The model of a [`Motions`].
pub struct Paths {
    pub tanks: Seq<TankMotion>,
    pub bullets: Seq<BulletPath>,
}

/// What `locals` says of the tank in slot `slot`: the point of the first
/// entry for that slot.
pub open spec fn local_of(locals: Seq<Local>, slot: usize) -> Option<Vector>
    decreases locals.len(),
{
    if locals.len() == 0 {
        None
    } else if locals[0].tank.slot == slot {
        Some(locals[0].point)
    } else {
        local_of(locals.drop_first(), slot)
    }
}

/// What `locals` says of the tank in slot `slot`.
pub fn find_local(locals: &[Local], slot: usize) -> (found: Option<Vector>)
    ensures
        found == local_of(locals@, slot),
{
    let mut i: usize = 0;
    assert(locals@.skip(0) == locals@);
    while i < locals.len()
        invariant
            i <= locals@.len(),
            local_of(locals@, slot) == local_of(locals@.skip(i as int), slot),
        decreases locals@.len() - i,
    {
        let ghost rest = locals@.skip(i as int);
        assert(rest[0] == locals@[i as int]);
        assert(rest.drop_first() == locals@.skip(i + 1));
        if locals[i].tank.slot == slot {
            return Some(locals[i].point);
        }
        i = i + 1;
    }
    assert(locals@.skip(i as int).len() == 0);
    None
}

impl View for BulletMotion {
    type V = BulletPath;

    open spec fn view(&self) -> BulletPath {
        BulletPath { step: self.step, locals: self.locals@ }
    }
}

impl View for Motions {
    type V = Paths;

    open spec fn view(&self) -> Paths {
        Paths { tanks: self.tanks@, bullets: Seq::new(self.bullets@.len(), |i: int| self.bullets@[i]@) }
    }
}

} // verus!
