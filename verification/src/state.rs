//! The state that holds a world, with the spatial index over its tanks.

use crate::bullet::{Bullet, BulletUpdate};
use crate::collision::{struck, CollisionMap};
use crate::geometry::{Point, Time, Vector};
use crate::hitbox::Hitbox;
use crate::input::Input;
use crate::motion::{Local, Motions, Paths, Probe};
use crate::player::Player;
use crate::store::{lemma_vacancy, padded, vacancy, ElementList, Idx, StableList};
use crate::tank::{Tank, TankUpdate};
use crate::world::{
    as_mail, first_struck, hitboxes, lemma_hitboxes_count, lemma_hitboxes_update,
    lemma_tick_sound, tank_struck, Collision, World,
};
use vstd::multiset::Multiset;
use vstd::prelude::*;

verus! {

/// The state of the world at one tick.
pub struct GameState {
    players: StableList<Player>,
    tanks: StableList<Tank>,
    tank_bullets: StableList<Vec<Bullet>>,
    bullets: ElementList<Bullet>,
    collision: CollisionMap,
    time: Time,
}

/// The model of a mailbox arena.
pub open spec fn mail_view(slots: Seq<Option<Vec<Bullet>>>) -> Seq<Option<Seq<Bullet>>> {
    Seq::new(
        slots.len(),
        |i: int|
            match slots[i] {
                Some(bullets) => Some(bullets@),
                None => None,
            },
    )
}

impl View for GameState {
    type V = World;

    closed spec fn view(&self) -> World {
        World {
            players: self.players@,
            tanks: self.tanks@,
            tank_bullets: mail_view(self.tank_bullets@),
            bullets: self.bullets@,
            time: self.time,
        }
    }
}

impl GameState {
    /// Whether the state is well formed: its model is, and the spatial index
    /// holds the hitbox of each live tank once, under the tank's slot, and
    /// nothing else.
    pub closed spec fn wf(&self) -> bool {
        &&& self@.sound()
        &&& self.collision.entries() == hitboxes(self.tanks@)
    }

    /// What the spatial index holds.
    pub closed spec fn indexed(&self) -> Multiset<Hitbox> {
        self.collision.entries()
    }

    /// The model of a well-formed state is well formed, and its spatial
    /// index holds the hitbox of each live tank once, under the tank's slot,
    /// and nothing else: no entry is stale, none is double.
    pub proof fn lemma_wf(&self, entry: Hitbox)
        requires
            self.wf(),
        ensures
            self@.sound(),
            self.indexed() == hitboxes(self@.tanks),
            self.indexed().count(entry) == if entry.slot() < self@.tanks.len()
                && self@.tanks[entry.slot() as int] is Some
                && self@.tanks[entry.slot() as int].unwrap().shape() == entry.shape() {
                1nat
            } else {
                0nat
            },
    {
        lemma_hitboxes_count(self@.tanks, entry);
    }

    /// The world before anyone has joined.
    pub fn new() -> (state: Self)
        ensures
            state.wf(),
            state@ == World::empty(),
    {
        let state = GameState {
            players: StableList::from_vec(Vec::new()),
            tanks: StableList::from_vec(Vec::new()),
            tank_bullets: StableList::from_vec(Vec::new()),
            bullets: ElementList::from_vec(Vec::new()),
            collision: CollisionMap::new(),
            time: Time(0),
        };
        assert(state@.tank_bullets =~= Seq::empty());
        state
    }

    /// The tick count.
    pub fn time(&self) -> (t: Time)
        ensures
            t == self@.time,
    {
        self.time
    }

    /// The number of tank slots; in a well-formed state, the number of
    /// slots in each of the three arenas.
    pub fn slots(&self) -> (n: usize)
        ensures
            n == self@.tanks.len(),
            self.wf() ==> n == self@.players.len() && n == self@.tank_bullets.len(),
    {
        self.tanks.len()
    }

    /// The player in slot `idx`, or nothing where the slot is vacant or
    /// beyond the arena.
    pub fn player(&self, idx: Idx<Player>) -> (entry: Option<&Player>)
        ensures
            entry == if idx.slot < self@.players.len() {
                match self@.players[idx.slot as int] {
                    Some(player) => Some(&player),
                    None => None,
                }
            } else {
                None
            },
    {
        if idx.slot < self.players.len() {
            self.players.get(idx).as_ref()
        } else {
            None
        }
    }

    /// The input latched by the player in slot `idx`, or nothing where the
    /// slot is vacant or beyond the arena.
    pub fn input_of(&self, idx: Idx<Player>) -> (input: Option<Input>)
        ensures
            forall|tank: Tank| tank.player == idx ==> input == self@.input_of(tank),
    {
        match self.player(idx) {
            Some(player) => Some(player.input),
            None => None,
        }
    }

    /// The tank in slot `idx`, or nothing where the slot is vacant or beyond
    /// the arena.
    pub fn tank(&self, idx: Idx<Tank>) -> (entry: Option<Tank>)
        ensures
            entry == if idx.slot < self@.tanks.len() {
                self@.tanks[idx.slot as int]
            } else {
                None
            },
    {
        if idx.slot < self.tanks.len() {
            *self.tanks.get(idx)
        } else {
            None
        }
    }

    /// The bullets waiting for the tank in slot `idx`.
    pub fn mailbox(&self, idx: Idx<Tank>) -> (waiting: Vec<Bullet>)
        ensures
            waiting@ == self@.mailbox(idx.slot as int),
    {
        let mut waiting: Vec<Bullet> = Vec::new();
        if idx.slot < self.tank_bullets.len() {
            match self.tank_bullets.get(Idx::new(idx.slot)) {
                Some(bullets) => {
                    let mut j: usize = 0;
                    while j < bullets.len()
                        invariant
                            j <= bullets@.len(),
                            waiting@ == bullets@.take(j as int),
                        decreases bullets@.len() - j,
                    {
                        waiting.push(bullets[j]);
                        assert(bullets@.take(j + 1) == bullets@.take(j as int).push(bullets@[j as int]));
                        j = j + 1;
                    }
                    assert(bullets@.take(bullets@.len() as int) == bullets@);
                },
                None => {},
            }
        }
        waiting
    }

    /// The number of bullets in flight.
    pub fn bullet_count(&self) -> (n: usize)
        ensures
            n == self@.bullets.len(),
    {
        self.bullets.len()
    }

    /// The bullet at position `idx` of those in flight.
    pub fn bullet(&self, idx: Idx<Bullet>) -> (bullet: Bullet)
        requires
            idx.slot < self@.bullets.len(),
        ensures
            bullet == self@.bullets[idx.slot as int],
    {
        *self.bullets.get(idx)
    }

    /// The index entries whose envelope holds `position`: the live tanks
    /// that a point there may be in, in no stated order.
    pub fn candidates(&self, position: &Point) -> (found: Vec<Hitbox>)
        requires
            self.wf(),
        ensures
            forall|h: Hitbox|
                #[trigger] found@.contains(h) <==> self@.candidate(h, *position),
    {
        let found = self.collision.candidates(position);
        proof {
            assert forall|h: Hitbox|
                #[trigger] found@.contains(h) <==> self@.candidate(h, *position) by {
                lemma_hitboxes_count(self.tanks@, h);
            }
        }
        found
    }

    /// The questions that decide what a point at `position` runs into: one
    /// for each live tank whose envelope holds the position, in no stated
    /// order. The answers, as [`Local`]s, are what [`GameState::collide`]
    /// takes.
    pub fn probes(&self, position: &Point) -> (asked: Vec<Probe>)
        requires
            self.wf(),
        ensures
            forall|i: int|
                0 <= i < asked@.len() ==> {
                    &&& self@.near((#[trigger] asked@[i]).tank.slot as int, *position)
                    &&& asked@[i] == self@.probe(asked@[i].tank.slot as int, *position)
                },
            forall|slot: int|
                self@.near(slot, *position) ==> asked@.contains(
                    #[trigger] self@.probe(slot, *position),
                ),
    {
        let found = self.candidates(position);
        let mut asked: Vec<Probe> = Vec::new();
        let mut i: usize = 0;
        while i < found.len()
            invariant
                i <= found@.len(),
                asked@.len() == i,
                forall|h: Hitbox|
                    #[trigger] found@.contains(h) <==> self@.candidate(h, *position),
                forall|k: int|
                    0 <= k < i ==> {
                        &&& (#[trigger] asked@[k]).tank.slot == found@[k].slot()
                        &&& self@.near(asked@[k].tank.slot as int, *position)
                        &&& asked@[k] == self@.probe(asked@[k].tank.slot as int, *position)
                    },
            decreases found@.len() - i,
        {
            let entry = found[i];
            assert(found@.contains(entry));
            let shape = entry.hitbox();
            asked.push(
                Probe {
                    tank: Idx::new(entry.tank_slot()),
                    angle: shape.angle,
                    offset: Vector::new(position.x - shape.center.x, position.y - shape.center.y),
                },
            );
            i = i + 1;
        }
        proof {
            assert forall|slot: int| self@.near(slot, *position) implies asked@.contains(
                #[trigger] self@.probe(slot, *position),
            ) by {
                let h = Hitbox::of(self@.tanks[slot].unwrap().shape(), slot as usize);
                assert(found@.contains(h));
                let k = choose|k: int| 0 <= k < found@.len() && found@[k] == h;
                assert(asked@[k] == self@.probe(slot, *position));
            }
        }
        asked
    }

    /// What a point at `position` runs into; see [`World::collision`].
    pub fn collide(&self, position: &Point, locals: &[Local]) -> (hit: Option<Collision>)
        requires
            self.wf(),
        ensures
            hit == self@.collision(*position, locals@),
    {
        let ghost tanks = self@.tanks;
        match self.collision.collide(position, locals) {
            Some(entry) => {
                let slot: usize = entry.tank_slot();
                proof {
                    lemma_hitboxes_count(tanks, entry);
                    assert(tank_struck(tanks, *position, locals@, slot as int));
                    assert forall|other: int|
                        tank_struck(tanks, *position, locals@, other) implies slot <= other by {
                        let o = Hitbox::of(tanks[other].unwrap().shape(), other as usize);
                        lemma_hitboxes_count(tanks, o);
                        assert(struck(self.collision.entries(), *position, locals@, o));
                    }
                    assert(first_struck(tanks, *position, locals@, slot as int));
                    let chosen = choose|k: int| first_struck(tanks, *position, locals@, k);
                    assert(chosen == slot);
                }
                Some(Collision::Tank(Idx::new(slot)))
            },
            None => {
                proof {
                    assert forall|other: int| !tank_struck(tanks, *position, locals@, other) by {
                        if tank_struck(tanks, *position, locals@, other) {
                            let o = Hitbox::of(tanks[other].unwrap().shape(), other as usize);
                            lemma_hitboxes_count(tanks, o);
                            assert(struck(self.collision.entries(), *position, locals@, o));
                        }
                    }
                }
                if position.is_on_field() {
                    None
                } else {
                    Some(Collision::Arena)
                }
            },
        }
    }
}

impl GameState {
    /// Whether `motions` fits the state; see [`World::admits`].
    pub fn fits(&self, motions: &Motions) -> (ok: bool)
        requires
            self.wf(),
        ensures
            ok == self@.admits(motions@),
    {
        if motions.tanks.len() != self.tanks.len() || motions.bullets.len() != self.bullets.len() {
            return false;
        }
        let n: usize = self.tanks.len();
        let mut i: usize = 0;
        while i < n
            invariant
                i <= n,
                n == self@.tanks.len(),
                motions@.tanks.len() == n,
                forall|k: int|
                    0 <= k < i ==> match #[trigger] self@.tanks[k] {
                        Some(tank) => tank.admits(self@.input_of(tank), motions@.tanks[k]),
                        None => true,
                    },
            decreases n - i,
        {
            match self.tanks.get(Idx::new(i)) {
                Some(tank) => {
                    if !tank.can_make(self.input_of(tank.player), &motions.tanks[i]) {
                        return false;
                    }
                },
                None => {},
            }
            i = i + 1;
        }
        true
    }

    /// Lets every tank make its move. Returns the tank slots after the tick,
    /// the bullets fired in it by tank slot, and the spatial index brought
    /// up to the tanks' new hitboxes.
    fn tick_tanks(&self, motions: &Motions) -> (out: (Vec<Option<Tank>>, Vec<Bullet>, CollisionMap))
        requires
            self.wf(),
            self@.admits(motions@),
        ensures
            out.0@ == self@.tick(motions@).tanks,
            out.1@ == self@.fired(motions@, self@.tanks.len() as int),
            out.2.entries() == hitboxes(out.0@),
    {
        let ghost world = self@;
        let ghost paths = motions@;
        let n: usize = self.tanks.len();
        let mut tanks: Vec<Option<Tank>> = Vec::new();
        let mut fired: Vec<Bullet> = Vec::new();
        let mut collision = self.collision.duplicate();
        let ghost mut mixed: Seq<Option<Tank>> = self.tanks@;
        let mut i: usize = 0;
        while i < n
            invariant
                self.wf(),
                world == self@,
                paths == motions@,
                world.admits(paths),
                i <= n,
                n == world.tanks.len(),
                tanks@.len() == i,
                mixed.len() == n,
                forall|k: int| 0 <= k < i ==> #[trigger] tanks@[k] == world.tank_after(paths, k),
                forall|k: int| 0 <= k < i ==> #[trigger] mixed[k] == tanks@[k],
                forall|k: int| i <= k < n ==> #[trigger] mixed[k] == world.tanks[k],
                collision.entries() == hitboxes(mixed),
                fired@ == world.fired(paths, i as int),
            decreases n - i,
        {
            let ghost before = mixed;
            match self.tanks.get(Idx::new(i)) {
                None => {
                    tanks.push(None);
                },
                Some(tank) => {
                    let mailbox = self.mailbox(Idx::new(i));
                    proof {
                        assert forall|j: int| 0 <= j < mailbox@.len() implies (
                        #[trigger] mailbox@[j]).damage >= 0 by {
                            assert(world.tank_bullets[i as int].unwrap()[j].damage >= 0);
                        }
                        lemma_hitboxes_count(before, Hitbox::of(tank.shape(), i));
                    }
                    let standing = Hitbox::tank(tank.hitbox(), Idx::new(i));
                    match tank.tick(self, mailbox.as_slice(), &motions.tanks[i]) {
                        TankUpdate::Dead(_) => {
                            collision.remove(standing);
                            tanks.push(None);
                        },
                        TankUpdate::Alive(moved) => {
                            if moved.hitbox() != tank.hitbox() {
                                collision.remove(standing);
                                collision.add(Hitbox::tank(moved.hitbox(), Idx::new(i)));
                            }
                            tanks.push(Some(moved));
                        },
                        TankUpdate::Fire(moved, bullet) => {
                            if moved.hitbox() != tank.hitbox() {
                                collision.remove(standing);
                                collision.add(Hitbox::tank(moved.hitbox(), Idx::new(i)));
                            }
                            tanks.push(Some(moved));
                            fired.push(bullet);
                        },
                    }
                },
            }
            proof {
                mixed = before.update(i as int, tanks@[i as int]);
                lemma_hitboxes_update(before, i as int, tanks@[i as int]);
            }
            i = i + 1;
        }
        assert(mixed =~= tanks@);
        assert(tanks@ =~= world.tick(paths).tanks);
        (tanks, fired, collision)
    }

    /// Lets every bullet make its move. Returns the mailboxes after the
    /// tick, and `fired` followed by the bullets that fly on.
    fn tick_bullets(&self, motions: &Motions, fired: Vec<Bullet>) -> (out: (
        Vec<Option<Vec<Bullet>>>,
        Vec<Bullet>,
    ))
        requires
            self.wf(),
            motions@.bullets.len() == self@.bullets.len(),
        ensures
            mail_view(out.0@) == self@.tick(motions@).tank_bullets,
            out.1@ == fired@ + self@.flying(motions@, self@.bullets.len() as int),
    {
        let ghost world = self@;
        let ghost paths = motions@;
        let n: usize = self.tanks.len();
        let mut bullets = fired;
        let mut mail: Vec<Option<Vec<Bullet>>> = Vec::new();
        let mut k: usize = 0;
        while k < n
            invariant
                k <= n,
                mail@.len() == k,
                forall|t: int| 0 <= t < k ==> (#[trigger] mail@[t]) is None,
            decreases n - k,
        {
            mail.push(None);
            k = k + 1;
        }
        let m: usize = self.bullets.len();
        let mut j: usize = 0;
        assert(bullets@ =~= fired@ + world.flying(paths, 0));
        while j < m
            invariant
                self.wf(),
                world == self@,
                paths == motions@,
                paths.bullets.len() == m,
                m == world.bullets.len(),
                n == world.tanks.len(),
                j <= m,
                mail@.len() == n,
                forall|t: int|
                    0 <= t < n ==> (#[trigger] mail_view(mail@)[t]) == as_mail(
                        world.striking(paths, t, j as int),
                    ),
                bullets@ == fired@ + world.flying(paths, j as int),
            decreases m - j,
        {
            let bullet = *self.bullets.get(Idx::new(j));
            let ghost mail_before = mail@;
            match bullet.tick(self, &motions.bullets[j]) {
                BulletUpdate::Hit(tank) => {
                    let slot: usize = tank.slot;
                    proof {
                        let position = bullet.position.moved(paths.bullets[j as int].step);
                        let chosen = choose|c: int|
                            first_struck(world.tanks, position, paths.bullets[j as int].locals, c);
                        assert(slot == chosen as usize);
                    }
                    let mut taken: Option<Vec<Bullet>> = None;
                    core::mem::swap(&mut mail[slot], &mut taken);
                    let mut waiting = match taken {
                        Some(list) => list,
                        None => Vec::new(),
                    };
                    waiting.push(bullet);
                    mail[slot] = Some(waiting);
                },
                BulletUpdate::Move(moved) => {
                    bullets.push(moved);
                    assert(bullets@ =~= fired@ + world.flying(paths, j + 1));
                },
                BulletUpdate::Dead => {},
            }
            proof {
                assert forall|t: int| 0 <= t < n implies (#[trigger] mail_view(mail@)[t]) == as_mail(
                    world.striking(paths, t, j + 1),
                ) by {
                    assert(mail_view(mail_before)[t] == as_mail(world.striking(paths, t, j as int)));
                }
            }
            j = j + 1;
        }
        assert(mail_view(mail@) =~= world.tick(paths).tank_bullets);
        (mail, bullets)
    }

    /// The world one tick later; see [`World::tick`].
    pub fn tick(&self, motions: &Motions) -> (next: GameState)
        requires
            self.wf(),
            self@.admits(motions@),
        ensures
            next.wf(),
            next@ == self@.tick(motions@),
    {
        let (tanks, fired, collision) = self.tick_tanks(motions);
        let (mail, bullets) = self.tick_bullets(motions, fired);
        proof {
            lemma_tick_sound(self@, motions@);
        }
        GameState {
            players: clone_players(&self.players),
            tanks: StableList::from_vec(tanks),
            tank_bullets: StableList::from_vec(mail),
            bullets: ElementList::from_vec(bullets),
            collision,
            time: self.time.succ(),
        }
    }

    /// The world one tick later where `motions` fits the state; else
    /// nothing.
    pub fn try_tick(&self, motions: &Motions) -> (next: Option<GameState>)
        requires
            self.wf(),
        ensures
            match next {
                Some(state) => self@.admits(motions@) && state.wf() && state@ == self@.tick(
                    motions@,
                ),
                None => !self@.admits(motions@),
            },
    {
        if self.fits(motions) {
            Some(self.tick(motions))
        } else {
            None
        }
    }
}

impl GameState {
    /// Lets a player named `name` join and returns their slot; see
    /// [`World::join`].
    pub fn join(&mut self, name: String) -> (idx: Idx<Player>)
        requires
            old(self).wf(),
        ensures
            final(self).wf(),
            final(self)@ == old(self)@.join(name),
            idx.slot == vacancy(old(self)@.players),
    {
        let ghost world = self@;
        proof {
            lemma_vacancy(world.players);
            lemma_vacancy(world.tanks);
        }
        let n: usize = self.tanks.len();
        let idx = self.players.push(Player { name, input: Input::default() });
        let tank = Tank::new(idx);
        let slot = self.tanks.push(tank);
        let grown: usize = if self.players.len() > self.tanks.len() {
            self.players.len()
        } else {
            self.tanks.len()
        };
        assert(grown == world.slots_after_join());
        self.players.grow_to(grown);
        self.tanks.grow_to(grown);
        self.tank_bullets.grow_to(grown);
        self.tank_bullets.set(Idx::new(slot.slot), None);
        self.collision.add(Hitbox::tank(tank.hitbox(), slot));
        proof {
            let goal = world.join(name);
            assert(self@.tank_bullets =~= goal.tank_bullets);
            let before = padded(world.tanks, grown as nat);
            assert(hitboxes(before) == hitboxes(world.tanks)) by {
                assert forall|entry: Hitbox|
                    hitboxes(before).count(entry) == hitboxes(world.tanks).count(entry) by {
                    lemma_hitboxes_count(before, entry);
                    lemma_hitboxes_count(world.tanks, entry);
                }
                assert(hitboxes(before) =~= hitboxes(world.tanks));
            }
            assert(self.tanks@ =~= before.update(slot.slot as int, Some(tank)));
            lemma_hitboxes_update(before, slot.slot as int, Some(tank));
            assert(self@.sound()) by {
                assert forall|i: int| 0 <= i < self@.tanks.len() implies match #[trigger] self@.tanks[i] {
                    Some(tank) => tank.sound() && tank.player.slot < self@.players.len(),
                    None => true,
                } by {
                    if i != slot.slot && i < world.tanks.len() {
                        assert(self@.tanks[i] == world.tanks[i]);
                    }
                }
                assert forall|k: int, j: int|
                    0 <= k < self@.tank_bullets.len() && self@.tank_bullets[k] is Some && 0 <= j
                        < self@.tank_bullets[k].unwrap().len() implies (
                #[trigger] self@.tank_bullets[k].unwrap()[j]).damage >= 0 by {
                    assert(self@.tank_bullets[k] == world.tank_bullets[k]);
                }
            }
        }
        idx
    }

    /// Lets the player in slot `idx` leave; see [`World::leave`].
    pub fn leave(&mut self, idx: &Idx<Player>)
        requires
            old(self).wf(),
        ensures
            final(self).wf(),
            final(self)@ == old(self)@.leave(idx.slot),
    {
        if idx.slot < self.players.len() {
            self.players.remove(idx);
        }
    }

    /// Latches `input` for the player in slot `idx`; see [`World::latch`].
    pub fn latch(&mut self, idx: Idx<Player>, input: Input)
        requires
            old(self).wf(),
        ensures
            final(self).wf(),
            final(self)@ == old(self)@.latch(idx.slot, input),
    {
        if idx.slot < self.players.len() {
            match self.players.remove(&idx) {
                Some(player) => {
                    self.players.set(idx, Some(Player { name: player.name, input }));
                    assert(self@.players =~= old(self)@.latch(idx.slot, input).players);
                },
                None => {
                    assert(self@.players =~= old(self)@.players);
                },
            }
        }
    }
}

/// Whether no bullet of `bullets` heals.
fn harmful(bullets: &Vec<Bullet>) -> (ok: bool)
    ensures
        ok == forall|j: int| 0 <= j < bullets@.len() ==> (#[trigger] bullets@[j]).damage >= 0,
{
    let mut j: usize = 0;
    while j < bullets.len()
        invariant
            j <= bullets@.len(),
            forall|b: int| 0 <= b < j ==> (#[trigger] bullets@[b]).damage >= 0,
        decreases bullets@.len() - j,
    {
        if bullets[j].damage < 0 {
            return false;
        }
        j = j + 1;
    }
    true
}

impl GameState {
    /// The state whose model has the parts given, with its spatial index
    /// built anew; nothing where that world is not well formed.
    pub fn restore(
        players: Vec<Option<Player>>,
        tanks: Vec<Option<Tank>>,
        tank_bullets: Vec<Option<Vec<Bullet>>>,
        bullets: Vec<Bullet>,
        time: Time,
    ) -> (state: Option<GameState>)
        ensures
            match state {
                Some(state) => {
                    &&& state.wf()
                    &&& state@ == (World {
                        players: players@,
                        tanks: tanks@,
                        tank_bullets: mail_view(tank_bullets@),
                        bullets: bullets@,
                        time,
                    })
                },
                None => !(World {
                    players: players@,
                    tanks: tanks@,
                    tank_bullets: mail_view(tank_bullets@),
                    bullets: bullets@,
                    time,
                }).sound(),
            },
    {
        let ghost world = World {
            players: players@,
            tanks: tanks@,
            tank_bullets: mail_view(tank_bullets@),
            bullets: bullets@,
            time,
        };
        let n: usize = tanks.len();
        if players.len() != n || tank_bullets.len() != n {
            return None;
        }
        if !harmful(&bullets) {
            return None;
        }
        let mut collision = CollisionMap::new();
        let mut i: usize = 0;
        assert(tanks@.take(0) =~= Seq::empty());
        while i < n
            invariant
                i <= n,
                n == tanks@.len(),
                n == players@.len(),
                n == tank_bullets@.len(),
                world.tanks == tanks@,
                world.players == players@,
                world.tank_bullets == mail_view(tank_bullets@),
                collision.entries() == hitboxes(tanks@.take(i as int)),
                forall|k: int|
                    0 <= k < i ==> match #[trigger] tanks@[k] {
                        Some(tank) => tank.sound() && tank.player.slot < n,
                        None => true,
                    },
                forall|k: int, j: int|
                    0 <= k < i && world.tank_bullets[k] is Some && 0 <= j
                        < world.tank_bullets[k].unwrap().len() ==> (
                    #[trigger] world.tank_bullets[k].unwrap()[j]).damage >= 0,
            decreases n - i,
        {
            proof {
                let next = tanks@.take(i + 1);
                assert(next.drop_last() =~= tanks@.take(i as int));
                assert(next.last() == tanks@[i as int]);
            }
            match &tanks[i] {
                Some(tank) => {
                    if !tank.position.is_on_field() || tank.health <= 0 || tank.player.slot >= n {
                        return None;
                    }
                    collision.add(Hitbox::tank(tank.hitbox(), Idx::new(i)));
                },
                None => {},
            }
            match &tank_bullets[i] {
                Some(waiting) => {
                    assert(world.tank_bullets[i as int] == Some(waiting@));
                    if !harmful(waiting) {
                        proof {
                            if world.sound() {
                                assert forall|j: int| 0 <= j < waiting@.len() implies (
                                #[trigger] waiting@[j]).damage >= 0 by {
                                    assert(world.tank_bullets[i as int].unwrap()[j].damage >= 0);
                                }
                            }
                        }
                        return None;
                    }
                },
                None => {},
            }
            i = i + 1;
        }
        assert(tanks@.take(n as int) =~= tanks@);
        let state = GameState {
            players: StableList::from_vec(players),
            tanks: StableList::from_vec(tanks),
            tank_bullets: StableList::from_vec(tank_bullets),
            bullets: ElementList::from_vec(bullets),
            collision,
            time,
        };
        Some(state)
    }
}

/// A copy of `players`.
fn clone_players(players: &StableList<Player>) -> (copy: StableList<Player>)
    ensures
        copy@ == players@,
{
    let mut slots: Vec<Option<Player>> = Vec::new();
    let mut i: usize = 0;
    while i < players.len()
        invariant
            i <= players@.len(),
            slots@ == players@.take(i as int),
        decreases players@.len() - i,
    {
        let entry = match players.get(Idx::new(i)) {
            Some(player) => Some(player.clone()),
            None => None,
        };
        slots.push(entry);
        assert(players@.take(i + 1) == players@.take(i as int).push(players@[i as int]));
        i = i + 1;
    }
    assert(players@.take(players@.len() as int) == players@);
    StableList::from_vec(slots)
}

/// A tick is a function of the world and the motions alone: two states
/// that hold the same world give the same world after it, however each is
/// laid out in memory.
pub proof fn lemma_tick_pure(first: GameState, second: GameState, paths: Paths)
    requires
        first@ == second@,
    ensures
        first@.tick(paths) == second@.tick(paths),
{
}

} // verus!
