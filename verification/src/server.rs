//! The authoritative side: the inbox that connections fill between ticks,
//! and the server that empties it and advances the world.

use crate::input::Input;
use crate::motion::Motions;
use crate::player::Player;
use crate::store::{vacancy, Idx};
use crate::state::GameState;
use crate::world::World;
use std::collections::HashMap;
use vstd::prelude::*;
use vstd::std_specs::hash::*;

verus! {

broadcast use vstd::std_specs::hash::group_hash_axioms;

/// What connections have asked for since the last tick.
pub struct PlayerInput {
    /// The names of the players who connected, in the order in which they
    /// did.
    pub new_connections: Vec<String>,
    /// The slots of the players who disconnected.
    pub disconnections: Vec<Idx<Player>>,
    /// The newest input of each player who sent one, by player slot.
    pub inputs: HashMap<usize, Input>,
}

/// The model of a [`PlayerInput`].
pub struct Requests {
    pub new_connections: Seq<String>,
    pub disconnections: Seq<Idx<Player>>,
    pub inputs: Map<usize, Input>,
}

impl View for PlayerInput {
    type V = Requests;

    open spec fn view(&self) -> Requests {
        Requests {
            new_connections: self.new_connections@,
            disconnections: self.disconnections@,
            inputs: self.inputs@,
        }
    }
}

impl PlayerInput {
    /// An inbox that holds nothing.
    pub fn new() -> (inbox: Self)
        ensures
            inbox@.new_connections == Seq::<String>::empty(),
            inbox@.disconnections == Seq::<Idx<Player>>::empty(),
            inbox@.inputs == Map::<usize, Input>::empty(),
    {
        PlayerInput {
            new_connections: Vec::new(),
            disconnections: Vec::new(),
            inputs: HashMap::new(),
        }
    }

    /// Notes that a player named `name` has connected.
    pub fn connect(&mut self, name: String)
        ensures
            final(self)@ == (Requests {
                new_connections: old(self)@.new_connections.push(name),
                ..old(self)@
            }),
    {
        self.new_connections.push(name);
    }

    /// Notes that the player in slot `player` has disconnected.
    pub fn disconnect(&mut self, player: Idx<Player>)
        ensures
            final(self)@ == (Requests {
                disconnections: old(self)@.disconnections.push(player),
                ..old(self)@
            }),
    {
        self.disconnections.push(player);
    }

    /// Notes `input` as the newest input of the player in slot `player`. An
    /// input of theirs that was noted before and not yet taken is
    /// overwritten.
    pub fn post(&mut self, player: Idx<Player>, input: Input)
        ensures
            final(self)@ == (Requests {
                inputs: old(self)@.inputs.insert(player.slot, input),
                ..old(self)@
            }),
    {
        self.inputs.insert(player.slot, input);
    }
}

impl World {
    /// The world after players of the names `names` have joined, in that
    /// order.
    pub open spec fn joined(self, names: Seq<String>) -> World
        decreases names.len(),
    {
        if names.len() == 0 {
            self
        } else {
            self.joined(names.drop_last()).join(names.last())
        }
    }

    /// The slots that players of the names `names` get when they join in
    /// that order.
    pub open spec fn join_slots(self, names: Seq<String>) -> Seq<usize> {
        Seq::new(
            names.len(),
            |i: int| vacancy(self.joined(names.take(i)).players) as usize,
        )
    }

    /// The world after the players in the slots `slots` have left.
    pub open spec fn departed(self, slots: Seq<Idx<Player>>) -> World
        decreases slots.len(),
    {
        if slots.len() == 0 {
            self
        } else {
            self.departed(slots.drop_last()).leave(slots.last().slot)
        }
    }

    /// The world after every player in one of the first `upto` slots has
    /// latched the input that `inputs` holds for their slot.
    pub open spec fn latched(self, inputs: Map<usize, Input>, upto: int) -> World
        decreases upto,
    {
        if upto <= 0 {
            self
        } else {
            let before = self.latched(inputs, upto - 1);
            if inputs.contains_key((upto - 1) as usize) {
                before.latch((upto - 1) as usize, inputs[(upto - 1) as usize])
            } else {
                before
            }
        }
    }

    /// The world after an inbox has been emptied into it: first the new
    /// players join, then those who disconnected leave, then every player
    /// still there latches the input noted for them.
    pub open spec fn drained(self, requests: Requests) -> World {
        let settled = self.joined(requests.new_connections).departed(requests.disconnections);
        settled.latched(requests.inputs, settled.players.len() as int)
    }
}

/// The authoritative world and the loop step that advances it.
pub struct Server {
    last_state: GameState,
}

impl View for Server {
    type V = World;

    closed spec fn view(&self) -> World {
        self.last_state@
    }
}

impl Server {
    /// Whether the server's world is well formed.
    pub closed spec fn wf(&self) -> bool {
        self.last_state.wf()
    }

    /// A server whose world nobody has joined yet.
    pub fn new() -> (server: Self)
        ensures
            server.wf(),
            server@ == World::empty(),
    {
        Server { last_state: GameState::new() }
    }

    /// The world as the last tick left it.
    pub fn state(&self) -> (state: &GameState)
        ensures
            state@ == self@,
            state.wf() == self.wf(),
    {
        &self.last_state
    }

    /// Empties `inbox` into the world and returns the slots of the players
    /// who joined, in the order in which they connected; see
    /// [`World::drained`].
    pub fn drain(&mut self, inbox: PlayerInput) -> (slots: Vec<Idx<Player>>)
        requires
            old(self).wf(),
        ensures
            final(self).wf(),
            final(self)@ == old(self)@.drained(inbox@),
            slots@.len() == inbox@.new_connections.len(),
            forall|i: int|
                0 <= i < slots@.len() ==> (#[trigger] slots@[i]).slot == old(self)@.join_slots(
                    inbox@.new_connections,
                )[i],
    {
        let ghost world = self@;
        let ghost requests = inbox@;
        let PlayerInput { new_connections, disconnections, inputs } = inbox;
        let mut slots: Vec<Idx<Player>> = Vec::new();
        let mut names = new_connections;
        let mut i: usize = 0;
        let count: usize = names.len();
        assert(requests.new_connections.take(0) =~= Seq::empty());
        while i < count
            invariant
                i <= count,
                count == requests.new_connections.len(),
                names@.len() == count,
                forall|k: int| i <= k < count ==> names@[k] == requests.new_connections[k],
                self.last_state.wf(),
                self.last_state@ == world.joined(requests.new_connections.take(i as int)),
                slots@.len() == i,
                forall|k: int|
                    0 <= k < i ==> (#[trigger] slots@[k]).slot == world.join_slots(
                        requests.new_connections,
                    )[k],
            decreases count - i,
        {
            let mut name = String::new();
            core::mem::swap(&mut names[i], &mut name);
            proof {
                let next = requests.new_connections.take(i + 1);
                assert(next.drop_last() =~= requests.new_connections.take(i as int));
                assert(next.last() == name);
            }
            let idx = self.last_state.join(name);
            slots.push(idx);
            i = i + 1;
        }
        assert(requests.new_connections.take(count as int) =~= requests.new_connections);
        let ghost joined = self.last_state@;
        let mut j: usize = 0;
        assert(requests.disconnections.take(0) =~= Seq::empty());
        while j < disconnections.len()
            invariant
                j <= disconnections@.len(),
                disconnections@ == requests.disconnections,
                self.last_state.wf(),
                self.last_state@ == joined.departed(requests.disconnections.take(j as int)),
            decreases disconnections@.len() - j,
        {
            proof {
                let next = requests.disconnections.take(j + 1);
                assert(next.drop_last() =~= requests.disconnections.take(j as int));
                assert(next.last() == disconnections@[j as int]);
            }
            self.last_state.leave(&disconnections[j]);
            j = j + 1;
        }
        assert(requests.disconnections.take(disconnections@.len() as int)
            =~= requests.disconnections);
        let ghost settled = self.last_state@;
        let n: usize = self.last_state.slots();
        let mut p: usize = 0;
        while p < n
            invariant
                p <= n,
                n == settled.players.len(),
                inputs@ == requests.inputs,
                self.last_state.wf(),
                self.last_state@ == settled.latched(requests.inputs, p as int),
            decreases n - p,
        {
            match inputs.get(&p) {
                Some(input) => {
                    self.last_state.latch(Idx::new(p), *input);
                },
                None => {},
            }
            p = p + 1;
        }
        slots
    }

    /// Advances the world by one tick; see [`World::tick`].
    pub fn tick(&mut self, motions: &Motions)
        requires
            old(self).wf(),
            old(self)@.admits(motions@),
        ensures
            final(self).wf(),
            final(self)@ == old(self)@.tick(motions@),
    {
        let next = self.last_state.tick(motions);
        self.last_state = next;
    }
}

} // verus!
