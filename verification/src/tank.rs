//! Tanks and the rule by which one tank changes in a tick.

use crate::bullet::Bullet;
use crate::geometry::{Angle, Point, Time};
use crate::hitbox::TankHitbox;
use crate::input::Input;
use crate::motion::TankMotion;
use crate::player::Player;
use crate::store::Idx;
use crate::state::GameState;
use vstd::prelude::*;

verus! {

/// The health of a tank that has just joined.
pub const FULL_HEALTH: i64 = 100;

/// The damage of every bullet a tank fires.
pub const BULLET_DAMAGE: i64 = 10;

/// A tank.
#[derive(Clone, Copy, Debug, PartialEq, Eq)]
pub struct Tank {
    pub player: Idx<Player>,
    pub position: Point,
    pub angle: Angle,
    pub turret_angle: Angle,
    pub health: i64,
}

/// What a tick makes of one tank.
#[derive(Clone, Copy, Debug, PartialEq, Eq)]
pub enum TankUpdate {
    /// The tank is gone; the player named is the one whose bullet destroyed
    /// it, or its own owner where the owner has left.
    Dead(Idx<Player>),
    /// The tank lives on in the state given.
    Alive(Tank),
    /// The tank lives on and has fired the bullet given.
    Fire(Tank, Bullet),
}

/// The damage of `bullets`, summed.
pub open spec fn total_damage(bullets: Seq<Bullet>) -> int
    decreases bullets.len(),
{
    if bullets.len() == 0 {
        0
    } else {
        total_damage(bullets.drop_last()) + bullets.last().damage
    }
}

/// The player whose bullet destroys a tank of health `health` that `bullets`
/// strike in their order: the owner of the first bullet with which the
/// damage summed so far reaches the health. Nobody, where all of them
/// together leave health over.
pub open spec fn killer(health: int, bullets: Seq<Bullet>) -> Option<Idx<Player>>
    decreases bullets.len(),
{
    if bullets.len() == 0 {
        None
    } else {
        match killer(health, bullets.drop_last()) {
            Some(player) => Some(player),
            None => if total_damage(bullets) >= health {
                Some(bullets.last().player)
            } else {
                None
            },
        }
    }
}

/// Who destroys the tank under the first bullets destroys it under all of
/// them.
pub proof fn lemma_killer_prefix(health: int, bullets: Seq<Bullet>, n: int)
    requires
        0 <= n <= bullets.len(),
        killer(health, bullets.take(n)) is Some,
    ensures
        killer(health, bullets) == killer(health, bullets.take(n)),
    decreases bullets.len(),
{
    if n == bullets.len() {
        assert(bullets.take(n) == bullets);
    } else {
        assert(bullets.drop_last().take(n) == bullets.take(n));
        lemma_killer_prefix(health, bullets.drop_last(), n);
    }
}

/// Bullets that do not heal leave a tank alive exactly when their damage,
/// summed, is less than its health.
pub proof fn lemma_killer_none(health: int, bullets: Seq<Bullet>)
    requires
        health > 0,
        forall|j: int| 0 <= j < bullets.len() ==> (#[trigger] bullets[j]).damage >= 0,
    ensures
        killer(health, bullets) is None <==> total_damage(bullets) < health,
        total_damage(bullets) >= 0,
    decreases bullets.len(),
{
    if bullets.len() > 0 {
        lemma_killer_none(health, bullets.drop_last());
    }
}

impl Tank {
    /// Whether `motion` is one the tank can make under its owner's input:
    /// the step it asks for ends on the play field, and where it fires, the
    /// muzzle's position can be written down.
    pub open spec fn admits(self, owner: Option<Input>, motion: TankMotion) -> bool {
        match owner {
            Some(input) => {
                &&& self.position.lands_on_field(motion.step(input))
                &&& input.fire ==> self.position.can_move(motion.muzzle)
            },
            None => true,
        }
    }

    /// Whether `motion` is one the tank can make; see [`Tank::admits`].
    pub fn can_make(&self, owner: Option<Input>, motion: &TankMotion) -> (ok: bool)
        ensures
            ok == self.admits(owner, *motion),
    {
        match owner {
            Some(input) => {
                let step = motion.step_for(&input);
                let lands = match self.position.checked_add(&step) {
                    Some(position) => position.is_on_field(),
                    None => false,
                };
                lands && (!input.fire || self.position.checked_add(&motion.muzzle).is_some())
            },
            None => true,
        }
    }

    /// What a tick makes of the tank. `owner` is the input that its player
    /// has latched, if the player is still connected; `mailbox` holds the bullets that struck it in the tick
    /// before; `time` is the tick count before this tick.
    ///
    /// The bullets are counted against its health first. A tank that
    /// survives them and still has its owner turns and moves as the owner's
    /// input asks. A bullet it fires starts at the muzzle, placed from where
    /// the tank stood before this tick, and flies along the turret's old
    /// facing.
    pub open spec fn after(
        self,
        owner: Option<Input>,
        mailbox: Seq<Bullet>,
        motion: TankMotion,
        time: Time,
    ) -> TankUpdate {
        match killer(self.health as int, mailbox) {
            Some(player) => TankUpdate::Dead(player),
            None => match owner {
                None => TankUpdate::Dead(self.player),
                Some(input) => {
                    let tank = Tank {
                        player: self.player,
                        position: self.position.moved(motion.step(input)),
                        angle: motion.angle,
                        turret_angle: motion.turret_angle,
                        health: (self.health - total_damage(mailbox)) as i64,
                    };
                    if input.fire {
                        TankUpdate::Fire(
                            tank,
                            Bullet {
                                position: self.position.moved(motion.muzzle),
                                angle: self.turret_angle,
                                damage: BULLET_DAMAGE,
                                birth: time,
                                player: self.player,
                            },
                        )
                    } else {
                        TankUpdate::Alive(tank)
                    }
                },
            },
        }
    }

    /// What a tick makes of the tank; see [`Tank::after`].
    pub fn tick(&self, state: &GameState, bullets: &[Bullet], motion: &TankMotion) -> (update:
        TankUpdate)
        requires
            self.sound(),
            forall|j: int| 0 <= j < bullets@.len() ==> (#[trigger] bullets@[j]).damage >= 0,
            self.admits(state@.input_of(*self), *motion),
        ensures
            update == self.after(state@.input_of(*self), bullets@, *motion, state@.time),
    {
        let mut hp: i64 = self.health;
        let mut j: usize = 0;
        assert(bullets@.take(0).len() == 0);
        while j < bullets.len()
            invariant
                j <= bullets@.len(),
                forall|k: int| 0 <= k < bullets@.len() ==> (#[trigger] bullets@[k]).damage >= 0,
                killer(self.health as int, bullets@.take(j as int)) is None,
                hp == self.health - total_damage(bullets@.take(j as int)),
                hp > 0,
            decreases bullets@.len() - j,
        {
            let bullet = bullets[j];
            proof {
                let next = bullets@.take(j + 1);
                assert(next.drop_last() == bullets@.take(j as int));
                assert(next.last() == bullet);
            }
            if bullet.damage >= hp {
                proof {
                    lemma_killer_prefix(self.health as int, bullets@, j + 1);
                }
                return TankUpdate::Dead(bullet.player);
            }
            hp = hp - bullet.damage;
            j = j + 1;
        }
        assert(bullets@.take(j as int) == bullets@);
        let input = match state.input_of(self.player) {
            None => {
                return TankUpdate::Dead(self.player);
            },
            Some(input) => input,
        };
        let step = motion.step_for(&input);
        let tank = Tank {
            player: self.player,
            position: Point { x: self.position.x + step.x, y: self.position.y + step.y },
            angle: motion.angle,
            turret_angle: motion.turret_angle,
            health: hp,
        };
        if input.fire {
            TankUpdate::Fire(
                tank,
                Bullet {
                    position: Point {
                        x: self.position.x + motion.muzzle.x,
                        y: self.position.y + motion.muzzle.y,
                    },
                    angle: self.turret_angle,
                    damage: BULLET_DAMAGE,
                    birth: state.time(),
                    player: self.player,
                },
            )
        } else {
            TankUpdate::Alive(tank)
        }
    }

    /// The tank of a player who has just joined in slot `player`: at the
    /// centre of the play field, facing along direction zero, at full health.
    pub open spec fn fresh(player: Idx<Player>) -> Tank {
        Tank {
            player,
            position: Point { x: 0, y: 0 },
            angle: Angle { bits: 0 },
            turret_angle: Angle { bits: 0 },
            health: FULL_HEALTH,
        }
    }

    /// The tank of a player who has just joined in slot `player`.
    pub fn new(player: Idx<Player>) -> (tank: Tank)
        ensures
            tank == Tank::fresh(player),
    {
        Tank {
            player,
            position: Point::origin(),
            angle: Angle::zero(),
            turret_angle: Angle::zero(),
            health: FULL_HEALTH,
        }
    }

    /// Whether the tank is well formed: on the play field, with health left.
    pub open spec fn sound(self) -> bool {
        self.position.on_field() && self.health > 0
    }

    /// The tank's hitbox.
    pub open spec fn shape(self) -> TankHitbox {
        TankHitbox { center: self.position, angle: self.angle }
    }

    /// The tank's hitbox.
    pub fn hitbox(&self) -> (out: TankHitbox)
        ensures
            out == self.shape(),
    {
        TankHitbox { center: self.position, angle: self.angle }
    }
}

} // verus!
