//! Bullets and the rule by which one bullet changes in a tick.

use crate::geometry::{Angle, Point, Time};
use crate::motion::{BulletMotion, BulletPath};
use crate::player::Player;
use crate::store::Idx;
use crate::tank::Tank;
use crate::state::GameState;
use crate::world::{Collision, World};
use vstd::prelude::*;

verus! {

/// The greatest age, in ticks, at which a bullet still flies.
pub const BULLET_LIFETIME: u64 = 600;

/// A bullet in flight.
#[derive(Clone, Copy, Debug, PartialEq, Eq)]
pub struct Bullet {
    pub position: Point,
    pub angle: Angle,
    pub damage: i64,
    pub birth: Time,
    pub player: Idx<Player>,
}

/// What a tick makes of one bullet.
#[derive(Clone, Copy, Debug, PartialEq, Eq)]
pub enum BulletUpdate {
    /// The bullet struck the tank in the slot given.
    Hit(Idx<Tank>),
    /// The bullet flies on in the state given.
    Move(Bullet),
    /// The bullet is gone.
    Dead,
}

impl Bullet {
    /// What a tick makes of the bullet in `world`, whose tanks stand where
    /// the tick before left them.
    ///
    /// A bullet older than [`BULLET_LIFETIME`] is gone. Else it moves by the
    /// step of `path`. It is gone if its new position cannot be written down
    /// or lies beyond the play field outside every hitbox; it strikes the
    /// tank whose hitbox it is in; else it flies on from there.
    pub open spec fn after(self, world: World, path: BulletPath) -> BulletUpdate {
        if world.time.since(self.birth) > BULLET_LIFETIME {
            BulletUpdate::Dead
        } else if !self.position.can_move(path.step) {
            BulletUpdate::Dead
        } else {
            let position = self.position.moved(path.step);
            match world.collision(position, path.locals) {
                Some(Collision::Tank(tank)) => BulletUpdate::Hit(tank),
                Some(Collision::Arena) => BulletUpdate::Dead,
                None => BulletUpdate::Move(Bullet { position, ..self }),
            }
        }
    }

    /// What a tick makes of the bullet; see [`Bullet::after`].
    pub fn tick(&self, state: &GameState, motion: &BulletMotion) -> (update: BulletUpdate)
        requires
            state.wf(),
        ensures
            update == self.after(state@, motion@),
    {
        if state.time().elapsed(&self.birth) > BULLET_LIFETIME {
            return BulletUpdate::Dead;
        }
        let position = match self.position.checked_add(&motion.step) {
            Some(position) => position,
            None => {
                return BulletUpdate::Dead;
            },
        };
        match state.collide(&position, motion.locals.as_slice()) {
            Some(Collision::Tank(tank)) => BulletUpdate::Hit(tank),
            Some(Collision::Arena) => BulletUpdate::Dead,
            None => BulletUpdate::Move(
                Bullet {
                    position,
                    angle: self.angle,
                    damage: self.damage,
                    birth: self.birth,
                    player: self.player,
                },
            ),
        }
    }
}

} // verus!
