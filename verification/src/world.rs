//! The model of the world, and what a tick makes of it.

use crate::bullet::{Bullet, BulletUpdate};
use crate::geometry::{Point, Time, Vector};
use crate::hitbox::Hitbox;
use crate::input::Input;
use crate::motion::{local_of, Local, Paths, Probe};
use crate::player::Player;
use crate::store::{padded, pushed, vacancy, Idx};
use crate::tank::{
    killer, lemma_killer_none, total_damage, Tank, TankUpdate, BULLET_DAMAGE,
};
use vstd::multiset::Multiset;
use vstd::prelude::*;

verus! {

/// What a point runs into.
#[derive(Clone, Copy, Debug, PartialEq, Eq)]
pub enum Collision {
    /// The tank in the slot given.
    Tank(Idx<Tank>),
    /// The edge of the play field.
    Arena,
}

/// The model of the world at one tick.
pub struct World {
    /// The players, by slot.
    pub players: Seq<Option<Player>>,
    /// The tanks, by slot.
    pub tanks: Seq<Option<Tank>>,
    /// For each tank slot, the bullets that struck the tank in the tick
    /// before and have not been counted against it yet.
    pub tank_bullets: Seq<Option<Seq<Bullet>>>,
    /// The bullets in flight.
    pub bullets: Seq<Bullet>,
    /// The tick count.
    pub time: Time,
}

/// Whether the tank in slot `slot` of `tanks` is struck at `position`, where
/// `locals` says how the position lies in the frames of the hitboxes.
pub open spec fn tank_struck(
    tanks: Seq<Option<Tank>>,
    position: Point,
    locals: Seq<Local>,
    slot: int,
) -> bool {
    &&& 0 <= slot < tanks.len()
    &&& match tanks[slot] {
        Some(tank) => match local_of(locals, slot as usize) {
            Some(local) => tank.shape().covers(position, local),
            None => false,
        },
        None => false,
    }
}

/// Whether `slot` is the lowest slot whose tank is struck at `position`.
pub open spec fn first_struck(
    tanks: Seq<Option<Tank>>,
    position: Point,
    locals: Seq<Local>,
    slot: int,
) -> bool {
    &&& tank_struck(tanks, position, locals, slot)
    &&& forall|other: int| tank_struck(tanks, position, locals, other) ==> slot <= other
}

/// A mailbox that holds `bullets`: nothing where there are none.
pub open spec fn as_mail(bullets: Seq<Bullet>) -> Option<Seq<Bullet>> {
    if bullets.len() == 0 {
        None
    } else {
        Some(bullets)
    }
}

/// The index entries of `tanks`: the hitbox of each live tank, under its
/// slot.
pub open spec fn hitboxes(tanks: Seq<Option<Tank>>) -> Multiset<Hitbox>
    decreases tanks.len(),
{
    if tanks.len() == 0 {
        Multiset::empty()
    } else {
        let rest = hitboxes(tanks.drop_last());
        match tanks.last() {
            Some(tank) => rest.insert(Hitbox::of(tank.shape(), (tanks.len() - 1) as usize)),
            None => rest,
        }
    }
}

/// How often `entry` occurs among the index entries of `tanks`: once if the
/// tank in its slot is live and has its shape, else never.
pub proof fn lemma_hitboxes_count(tanks: Seq<Option<Tank>>, entry: Hitbox)
    requires
        tanks.len() <= usize::MAX,
    ensures
        hitboxes(tanks).count(entry) == if entry.slot() < tanks.len() && tanks[entry.slot() as int]
            is Some && tanks[entry.slot() as int].unwrap().shape() == entry.shape() {
            1nat
        } else {
            0nat
        },
    decreases tanks.len(),
{
    if tanks.len() == 0 {
    } else {
        let front = tanks.drop_last();
        lemma_hitboxes_count(front, entry);
        entry.lemma_of();
        let last = (tanks.len() - 1) as usize;
        if entry.slot() < front.len() {
            assert(front[entry.slot() as int] == tanks[entry.slot() as int]);
        }
    }
}

/// Putting `tank` into slot `slot` changes the index entries by the entry of
/// the tank that was there, which goes, and the entry of `tank`, which
/// comes.
pub proof fn lemma_hitboxes_update(tanks: Seq<Option<Tank>>, slot: int, tank: Option<Tank>)
    requires
        tanks.len() <= usize::MAX,
        0 <= slot < tanks.len(),
    ensures
        hitboxes(tanks.update(slot, tank)) == {
            let rest = match tanks[slot] {
                Some(old) => hitboxes(tanks).remove(Hitbox::of(old.shape(), slot as usize)),
                None => hitboxes(tanks),
            };
            match tank {
                Some(new) => rest.insert(Hitbox::of(new.shape(), slot as usize)),
                None => rest,
            }
        },
{
    let after = tanks.update(slot, tank);
    let rest = match tanks[slot] {
        Some(old) => hitboxes(tanks).remove(Hitbox::of(old.shape(), slot as usize)),
        None => hitboxes(tanks),
    };
    let claimed = match tank {
        Some(new) => rest.insert(Hitbox::of(new.shape(), slot as usize)),
        None => rest,
    };
    assert forall|entry: Hitbox| hitboxes(after).count(entry) == claimed.count(entry) by {
        lemma_hitboxes_count(tanks, entry);
        lemma_hitboxes_count(after, entry);
        entry.lemma_of();
        if tanks[slot] is Some {
            lemma_hitboxes_count(tanks, Hitbox::of(tanks[slot].unwrap().shape(), slot as usize));
        }
    }
    assert(hitboxes(after) =~= claimed);
}

impl World {
    /// The world before anyone has joined.
    pub open spec fn empty() -> World {
        World {
            players: Seq::empty(),
            tanks: Seq::empty(),
            tank_bullets: Seq::empty(),
            bullets: Seq::empty(),
            time: Time(0),
        }
    }

    /// Whether the world is well formed: the three arenas have the same
    /// slots; a live tank names a player slot, stands on the play field and
    /// has health left; no bullet heals.
    pub open spec fn sound(self) -> bool {
        &&& self.tanks.len() <= usize::MAX
        &&& self.players.len() == self.tanks.len()
        &&& self.tank_bullets.len() == self.tanks.len()
        &&& forall|i: int|
            0 <= i < self.tanks.len() ==> match #[trigger] self.tanks[i] {
                Some(tank) => tank.sound() && tank.player.slot < self.players.len(),
                None => true,
            }
        &&& forall|j: int| 0 <= j < self.bullets.len() ==> (#[trigger] self.bullets[j]).damage >= 0
        &&& forall|k: int, j: int|
            0 <= k < self.tank_bullets.len() && self.tank_bullets[k] is Some && 0 <= j
                < self.tank_bullets[k].unwrap().len() ==> (#[trigger] self.tank_bullets[k].unwrap()[j]).damage
                >= 0
    }

    /// The bullets waiting for the tank in slot `slot`.
    pub open spec fn mailbox(self, slot: int) -> Seq<Bullet> {
        if 0 <= slot < self.tank_bullets.len() {
            match self.tank_bullets[slot] {
                Some(bullets) => bullets,
                None => Seq::empty(),
            }
        } else {
            Seq::empty()
        }
    }

    /// The input that the owner of `tank` has latched; nothing where the
    /// owner has left.
    pub open spec fn input_of(self, tank: Tank) -> Option<Input> {
        if tank.player.slot < self.players.len() {
            match self.players[tank.player.slot as int] {
                Some(player) => Some(player.input),
                None => None,
            }
        } else {
            None
        }
    }

    /// Whether `paths` fits the world: it has a motion for each tank slot
    /// and each bullet, and every live tank can make the motion given for
    /// it.
    pub open spec fn admits(self, paths: Paths) -> bool {
        &&& paths.tanks.len() == self.tanks.len()
        &&& paths.bullets.len() == self.bullets.len()
        &&& forall|i: int|
            0 <= i < self.tanks.len() ==> match #[trigger] self.tanks[i] {
                Some(tank) => tank.admits(self.input_of(tank), paths.tanks[i]),
                None => true,
            }
    }

    /// What the tick makes of the tank in slot `slot`; nothing where the
    /// slot is vacant.
    pub open spec fn tank_update(self, paths: Paths, slot: int) -> Option<TankUpdate> {
        match self.tanks[slot] {
            Some(tank) => Some(
                tank.after(self.input_of(tank), self.mailbox(slot), paths.tanks[slot], self.time),
            ),
            None => None,
        }
    }

    /// What slot `slot` of the tanks holds after the tick.
    pub open spec fn tank_after(self, paths: Paths, slot: int) -> Option<Tank> {
        match self.tank_update(paths, slot) {
            Some(TankUpdate::Alive(tank)) => Some(tank),
            Some(TankUpdate::Fire(tank, _)) => Some(tank),
            _ => None,
        }
    }

    /// The bullets that the tanks in the first `upto` slots fire in the
    /// tick, by slot.
    pub open spec fn fired(self, paths: Paths, upto: int) -> Seq<Bullet>
        decreases upto,
    {
        if upto <= 0 {
            Seq::empty()
        } else {
            let before = self.fired(paths, upto - 1);
            match self.tank_update(paths, upto - 1) {
                Some(TankUpdate::Fire(_, bullet)) => before.push(bullet),
                _ => before,
            }
        }
    }

    /// What the tick makes of the bullet at position `at`.
    pub open spec fn bullet_update(self, paths: Paths, at: int) -> BulletUpdate {
        self.bullets[at].after(self, paths.bullets[at])
    }

    /// Those of the first `upto` bullets that fly on after the tick, moved,
    /// in their order.
    pub open spec fn flying(self, paths: Paths, upto: int) -> Seq<Bullet>
        decreases upto,
    {
        if upto <= 0 {
            Seq::empty()
        } else {
            let before = self.flying(paths, upto - 1);
            match self.bullet_update(paths, upto - 1) {
                BulletUpdate::Move(bullet) => before.push(bullet),
                _ => before,
            }
        }
    }

    /// Those of the first `upto` bullets that strike the tank in slot `slot`
    /// in the tick, as they were before it, in their order.
    pub open spec fn striking(self, paths: Paths, slot: int, upto: int) -> Seq<Bullet>
        decreases upto,
    {
        if upto <= 0 {
            Seq::empty()
        } else {
            let before = self.striking(paths, slot, upto - 1);
            match self.bullet_update(paths, upto - 1) {
                BulletUpdate::Hit(tank) => if tank.slot == slot {
                    before.push(self.bullets[upto - 1])
                } else {
                    before
                },
                _ => before,
            }
        }
    }

    /// What the mailbox of slot `slot` holds after the tick: the bullets that
    /// struck the tank in the tick, or nothing where none did.
    pub open spec fn mail_after(self, paths: Paths, slot: int) -> Option<Seq<Bullet>> {
        as_mail(self.striking(paths, slot, self.bullets.len() as int))
    }

    /// The world one tick later.
    ///
    /// Every tank and every bullet changes by its own rule, each reading the
    /// world as it was before the tick. The players stay. A tank that is
    /// gone leaves its slot vacant. The bullets in flight are those fired in
    /// the tick, by tank slot, and then those that fly on. A bullet that
    /// strikes a tank waits in the tank's mailbox and counts against the
    /// tank's health in the tick after. The tick count goes up by one.
    pub open spec fn tick(self, paths: Paths) -> World {
        World {
            players: self.players,
            tanks: Seq::new(self.tanks.len(), |slot: int| self.tank_after(paths, slot)),
            tank_bullets: Seq::new(self.tanks.len(), |slot: int| self.mail_after(paths, slot)),
            bullets: self.fired(paths, self.tanks.len() as int) + self.flying(
                paths,
                self.bullets.len() as int,
            ),
            time: self.time.next(),
        }
    }

    /// The number of slots after a player and a tank have been pushed: one
    /// more than before where either arena had no vacancy.
    pub open spec fn slots_after_join(self) -> nat {
        if vacancy(self.players) < self.players.len() && vacancy(self.tanks) < self.tanks.len() {
            self.tanks.len()
        } else {
            self.tanks.len() + 1
        }
    }

    /// The world after a player named `name` has joined.
    ///
    /// The player goes into the first vacant player slot and their tank into
    /// the first vacant tank slot, each into a new last slot where there is
    /// no vacancy. The three arenas grow together: where one got a new slot,
    /// the others get a vacant one. The tank starts with an empty mailbox.
    pub open spec fn join(self, name: String) -> World {
        let player = Idx { slot: vacancy(self.players) as usize, kind: core::marker::PhantomData };
        let slot = vacancy(self.tanks) as int;
        let len = self.slots_after_join();
        World {
            players: padded(pushed(self.players, Player { name, input: Input::idle() }), len),
            tanks: padded(pushed(self.tanks, Tank::fresh(player)), len),
            tank_bullets: padded(self.tank_bullets, len).update(slot, None),
            bullets: self.bullets,
            time: self.time,
        }
    }

    /// The world after the player in slot `slot` has left: the slot is
    /// vacant. Their tank stays until the next tick finds it without owner.
    pub open spec fn leave(self, slot: usize) -> World {
        if slot < self.players.len() {
            World { players: self.players.update(slot as int, None), ..self }
        } else {
            self
        }
    }

    /// The world after the player in slot `slot` has latched `input`; the
    /// world as it is where there is no such player.
    pub open spec fn latch(self, slot: usize, input: Input) -> World {
        if slot < self.players.len() && self.players[slot as int] is Some {
            let player = Player { name: self.players[slot as int].unwrap().name, input };
            World { players: self.players.update(slot as int, Some(player)), ..self }
        } else {
            self
        }
    }

    /// Whether a point at `position` may be in the hitbox of the tank in slot
    /// `slot`: the tank is live and its envelope holds the position.
    pub open spec fn near(self, slot: int, position: Point) -> bool {
        &&& 0 <= slot < self.tanks.len()
        &&& self.tanks[slot] is Some
        &&& self.tanks[slot].unwrap().shape().envelops(position)
    }

    /// Whether `entry` is the index entry of a tank that a point at
    /// `position` is near.
    pub open spec fn candidate(self, entry: Hitbox, position: Point) -> bool {
        &&& self.near(entry.slot() as int, position)
        &&& self.tanks[entry.slot() as int].unwrap().shape() == entry.shape()
    }

    /// The question to ask of a point at `position` and the tank in slot
    /// `slot`, where the point is near the tank.
    pub open spec fn probe(self, slot: int, position: Point) -> Probe {
        let shape = self.tanks[slot].unwrap().shape();
        Probe {
            tank: Idx { slot: slot as usize, kind: core::marker::PhantomData },
            angle: shape.angle,
            offset: Vector {
                x: shape.offset_x(position) as i64,
                y: shape.offset_y(position) as i64,
            },
        }
    }

    /// What a point at `position` runs into: the struck tank in the lowest
    /// slot; failing that, the edge of the play field if the position lies
    /// beyond it; else nothing.
    pub open spec fn collision(self, position: Point, locals: Seq<Local>) -> Option<Collision> {
        if exists|slot: int| first_struck(self.tanks, position, locals, slot) {
            let slot = choose|slot: int| first_struck(self.tanks, position, locals, slot);
            Some(Collision::Tank(Idx { slot: slot as usize, kind: core::marker::PhantomData }))
        } else if !position.on_field() {
            Some(Collision::Arena)
        } else {
            None
        }
    }
}

/// Every bullet fired in a tick does the damage of a fresh bullet.
pub proof fn lemma_fired_fresh(world: World, paths: Paths, upto: int)
    ensures
        forall|j: int|
            0 <= j < world.fired(paths, upto).len() ==> (#[trigger] world.fired(paths, upto)[j]).damage
                == BULLET_DAMAGE,
    decreases upto,
{
    if upto > 0 {
        lemma_fired_fresh(world, paths, upto - 1);
    }
}

/// No bullet that flies on after a tick heals, if none did before it.
pub proof fn lemma_flying_harmful(world: World, paths: Paths, upto: int)
    requires
        upto <= world.bullets.len(),
        forall|j: int| 0 <= j < world.bullets.len() ==> (#[trigger] world.bullets[j]).damage >= 0,
    ensures
        forall|j: int|
            0 <= j < world.flying(paths, upto).len() ==> (#[trigger] world.flying(
                paths,
                upto,
            )[j]).damage >= 0,
    decreases upto,
{
    if upto > 0 {
        lemma_flying_harmful(world, paths, upto - 1);
        assert(world.bullets[upto - 1].damage >= 0);
    }
}

/// No bullet counted as striking a tank heals, if none in flight did.
pub proof fn lemma_striking_harmful(world: World, paths: Paths, slot: int, upto: int)
    requires
        upto <= world.bullets.len(),
        forall|j: int| 0 <= j < world.bullets.len() ==> (#[trigger] world.bullets[j]).damage >= 0,
    ensures
        forall|j: int|
            0 <= j < world.striking(paths, slot, upto).len() ==> (#[trigger] world.striking(
                paths,
                slot,
                upto,
            )[j]).damage >= 0,
    decreases upto,
{
    if upto > 0 {
        lemma_striking_harmful(world, paths, slot, upto - 1);
        assert(world.bullets[upto - 1].damage >= 0);
    }
}

/// A tick keeps a well-formed world well formed: the arenas keep their
/// common length, every tank left stands on the play field with health over,
/// and no bullet heals.
pub proof fn lemma_tick_sound(world: World, paths: Paths)
    requires
        world.sound(),
        world.admits(paths),
    ensures
        world.tick(paths).sound(),
        world.tick(paths).tanks.len() == world.tanks.len(),
{
    let next = world.tick(paths);
    assert forall|i: int| 0 <= i < next.tanks.len() implies match #[trigger] next.tanks[i] {
        Some(tank) => tank.sound() && tank.player.slot < next.players.len(),
        None => true,
    } by {
        if world.tanks[i] is Some {
            let old = world.tanks[i].unwrap();
            let mailbox = world.mailbox(i);
            assert forall|j: int| 0 <= j < mailbox.len() implies (#[trigger] mailbox[j]).damage
                >= 0 by {
                assert(world.tank_bullets[i].unwrap()[j].damage >= 0);
            }
            lemma_killer_none(old.health as int, mailbox);
        }
    }
    lemma_fired_fresh(world, paths, world.tanks.len() as int);
    lemma_flying_harmful(world, paths, world.bullets.len() as int);
    assert forall|k: int, j: int|
        0 <= k < next.tank_bullets.len() && next.tank_bullets[k] is Some && 0 <= j
            < next.tank_bullets[k].unwrap().len() implies (
    #[trigger] next.tank_bullets[k].unwrap()[j]).damage >= 0 by {
        lemma_striking_harmful(world, paths, k, world.bullets.len() as int);
    }
}

/// What a tick makes of a tank does not depend on the bullets in flight: the
/// tanks after the tick are those of the same world with no bullet in it.
pub proof fn lemma_tanks_ignore_bullets(world: World, paths: Paths)
    ensures
        world.tick(paths).tanks == (World { bullets: Seq::empty(), ..world }).tick(
            Paths { bullets: Seq::empty(), ..paths },
        ).tanks,
{
    let bare = World { bullets: Seq::empty(), ..world };
    let bare_paths = Paths { bullets: Seq::empty(), ..paths };
    assert forall|slot: int| 0 <= slot < world.tanks.len() implies world.tank_after(paths, slot)
        == bare.tank_after(bare_paths, slot) by {
        if world.tanks[slot] is Some {
            let tank = world.tanks[slot].unwrap();
            assert(world.input_of(tank) == bare.input_of(tank));
            assert(world.mailbox(slot) == bare.mailbox(slot));
        }
    }
    assert(world.tick(paths).tanks =~= bare.tick(bare_paths).tanks);
}

/// A bullet among the first `upto` that strikes the tank in slot `slot` is
/// among those counted as striking it.
pub proof fn lemma_striking_holds(world: World, paths: Paths, slot: int, upto: int, at: int)
    requires
        0 <= at < upto,
        world.bullet_update(paths, at) matches BulletUpdate::Hit(tank) && tank.slot == slot,
    ensures
        world.striking(paths, slot, upto).contains(world.bullets[at]),
    decreases upto,
{
    let all = world.striking(paths, slot, upto);
    if at == upto - 1 {
        assert(all.last() == world.bullets[at]);
    } else {
        lemma_striking_holds(world, paths, slot, upto - 1, at);
        let before = world.striking(paths, slot, upto - 1);
        let k = choose|k: int| 0 <= k < before.len() && before[k] == world.bullets[at];
        assert(all[k] == world.bullets[at]);
    }
}

/// A bullet that strikes a tank in a tick does not touch the tank in that
/// tick: it waits in the tank's mailbox after the tick, while the tank is
/// what it would be had no bullet been in flight.
pub proof fn lemma_damage_waits(world: World, paths: Paths, at: int, slot: int)
    requires
        0 <= at < world.bullets.len(),
        0 <= slot < world.tanks.len(),
        world.bullet_update(paths, at) matches BulletUpdate::Hit(tank) && tank.slot == slot,
    ensures
        world.tick(paths).tank_bullets[slot] is Some,
        world.tick(paths).tank_bullets[slot].unwrap().contains(world.bullets[at]),
        world.tick(paths).tanks[slot] == (World { bullets: Seq::empty(), ..world }).tick(
            Paths { bullets: Seq::empty(), ..paths },
        ).tanks[slot],
{
    lemma_striking_holds(world, paths, slot, world.bullets.len() as int, at);
    lemma_tanks_ignore_bullets(world, paths);
}

/// The bullets in a tank's mailbox count against the tank in the next tick:
/// a tank that lives through the tick has its health less their damage,
/// summed.
pub proof fn lemma_damage_lands(world: World, paths: Paths, slot: int)
    requires
        world.sound(),
        0 <= slot < world.tanks.len(),
        world.tanks[slot] is Some,
        world.tick(paths).tanks[slot] is Some,
    ensures
        world.tick(paths).tanks[slot].unwrap().health == world.tanks[slot].unwrap().health
            - total_damage(world.mailbox(slot)),
        total_damage(world.mailbox(slot)) < world.tanks[slot].unwrap().health,
{
    let tank = world.tanks[slot].unwrap();
    let mailbox = world.mailbox(slot);
    assert(world.tick(paths).tanks[slot] == world.tank_after(paths, slot));
    assert(killer(tank.health as int, mailbox) is None);
    assert forall|j: int| 0 <= j < mailbox.len() implies (#[trigger] mailbox[j]).damage >= 0 by {
        assert(world.tank_bullets[slot].unwrap()[j].damage >= 0);
    }
    lemma_killer_none(tank.health as int, mailbox);
}

} // verus!
