//! The client's side: the inputs it has sent and not yet seen confirmed, and
//! the replay that predicts its own tank ahead of the server's word.

use crate::input::Input;
use crate::motion::Paths;
use crate::player::Player;
use crate::store::Idx;
use crate::state::GameState;
use crate::world::World;
use std::collections::VecDeque;
use vstd::prelude::*;

verus! {

/// How many inputs at the front of `pending` a snapshot confirms whose own
/// input bears sequence number `acked`: those at the front whose number is
/// not greater.
pub open spec fn confirmed(pending: Seq<Input>, acked: usize) -> nat
    decreases pending.len(),
{
    if pending.len() == 0 || pending[0].seq > acked {
        0
    } else {
        1 + confirmed(pending.drop_first(), acked)
    }
}

/// Whether the sequence numbers of `pending` go up strictly.
pub open spec fn ascending(pending: Seq<Input>) -> bool {
    forall|i: int, j: int| 0 <= i < j < pending.len() ==> pending[i].seq < pending[j].seq
}

/// In a queue whose numbers go up strictly, the confirmed inputs are all
/// those whose number is not greater than `acked`: none of that kind is
/// left behind them.
pub proof fn lemma_confirmed(pending: Seq<Input>, acked: usize)
    requires
        ascending(pending),
    ensures
        confirmed(pending, acked) <= pending.len(),
        forall|i: int| 0 <= i < confirmed(pending, acked) ==> (#[trigger] pending[i]).seq <= acked,
        forall|i: int|
            confirmed(pending, acked) <= i < pending.len() ==> (#[trigger] pending[i]).seq > acked,
    decreases pending.len(),
{
    if pending.len() == 0 || pending[0].seq > acked {
        assert forall|i: int| 0 <= i < pending.len() implies (#[trigger] pending[i]).seq
            > acked by {
            if i > 0 {
                assert(pending[0].seq < pending[i].seq);
            }
        }
    } else {
        let rest = pending.drop_first();
        assert(ascending(rest)) by {
            assert forall|i: int, j: int| 0 <= i < j < rest.len() implies rest[i].seq
                < rest[j].seq by {
                assert(pending[i + 1].seq < pending[j + 1].seq);
            }
        }
        lemma_confirmed(rest, acked);
        assert forall|i: int| 0 <= i < confirmed(pending, acked) implies (#[trigger] pending[i]).seq
            <= acked by {
            if i > 0 {
                assert(pending[i] == rest[i - 1]);
            }
        }
        assert forall|i: int| confirmed(pending, acked) <= i < pending.len() implies (
        #[trigger] pending[i]).seq > acked by {
            assert(pending[i] == rest[i - 1]);
        }
    }
}

impl World {
    /// The world that a client shows: the snapshot `self`, advanced by one
    /// tick for each of `inputs`, with that input latched for the player in
    /// slot `player` before the tick. `paths` holds the motions of each of
    /// these ticks.
    pub open spec fn replay(self, player: usize, inputs: Seq<Input>, paths: Seq<Paths>) -> World
        decreases inputs.len(),
    {
        if inputs.len() == 0 || paths.len() != inputs.len() {
            self
        } else {
            self.replay(player, inputs.drop_last(), paths.drop_last()).latch(
                player,
                inputs.last(),
            ).tick(paths.last())
        }
    }
}

/// Replaying no input leaves the snapshot as it is.
pub proof fn lemma_replay_nothing(snapshot: World, player: usize)
    ensures
        snapshot.replay(player, Seq::empty(), Seq::empty()) == snapshot,
{
}

/// Replaying one input more is the replay so far, then that input latched,
/// then one tick.
pub proof fn lemma_replay_step(
    snapshot: World,
    player: usize,
    inputs: Seq<Input>,
    paths: Seq<Paths>,
    input: Input,
    path: Paths,
)
    requires
        inputs.len() == paths.len(),
    ensures
        snapshot.replay(player, inputs.push(input), paths.push(path)) == snapshot.replay(
            player,
            inputs,
            paths,
        ).latch(player, input).tick(path),
{
    assert(inputs.push(input).drop_last() =~= inputs);
    assert(paths.push(path).drop_last() =~= paths);
}

/// Replaying the same inputs on the same snapshot gives the same world, in
/// whatever state the snapshot is held.
pub proof fn lemma_replay_pure(
    first: GameState,
    second: GameState,
    player: usize,
    inputs: Seq<Input>,
    paths: Seq<Paths>,
)
    requires
        first@ == second@,
    ensures
        first@.replay(player, inputs, paths) == second@.replay(player, inputs, paths),
{
}

/// The inputs that a client has sent, oldest first, until a snapshot
/// confirms them; together with the number that the next input gets.
pub struct InputHistory {
    pending: VecDeque<Input>,
    next_seq: usize,
}

impl InputHistory {
    /// The inputs not yet confirmed, oldest first.
    pub closed spec fn pending(&self) -> Seq<Input> {
        self.pending@
    }

    /// The sequence number that the next input gets.
    pub closed spec fn next_seq(&self) -> usize {
        self.next_seq
    }

    /// Whether the history is well formed: the numbers of the pending inputs
    /// go up strictly and are all below the next number.
    pub open spec fn wf(&self) -> bool {
        &&& ascending(self.pending())
        &&& forall|i: int|
            0 <= i < self.pending().len() ==> (#[trigger] self.pending()[i]).seq < self.next_seq()
    }

    /// A history with nothing pending, whose first input gets number zero.
    pub fn new() -> (history: Self)
        ensures
            history.wf(),
            history.pending() == Seq::<Input>::empty(),
            history.next_seq() == 0,
    {
        InputHistory { pending: VecDeque::new(), next_seq: 0 }
    }

    /// How many inputs are pending.
    pub fn len(&self) -> (n: usize)
        ensures
            n == self.pending().len(),
    {
        self.pending.len()
    }

    /// The pending input at position `at`, the oldest being at zero.
    pub fn get(&self, at: usize) -> (input: Input)
        requires
            at < self.pending().len(),
        ensures
            input == self.pending()[at as int],
    {
        self.pending[at]
    }

    /// Stamps `input` with the next sequence number, queues it and returns
    /// it as it is to be sent. Returns nothing, and queues nothing, once the
    /// numbers have run out.
    pub fn stamp(&mut self, input: Input) -> (sent: Option<Input>)
        requires
            old(self).wf(),
        ensures
            final(self).wf(),
            match sent {
                Some(stamped) => {
                    &&& old(self).next_seq() < usize::MAX
                    &&& stamped == (Input { seq: old(self).next_seq(), ..input })
                    &&& final(self).pending() == old(self).pending().push(stamped)
                    &&& final(self).next_seq() == old(self).next_seq() + 1
                },
                None => {
                    &&& old(self).next_seq() == usize::MAX
                    &&& final(self).pending() == old(self).pending()
                    &&& final(self).next_seq() == old(self).next_seq()
                },
            },
    {
        if self.next_seq == usize::MAX {
            return None;
        }
        let stamped = input.with_seq(self.next_seq);
        self.pending.push_back(stamped);
        self.next_seq = self.next_seq + 1;
        Some(stamped)
    }

    /// Drops the inputs that a snapshot confirms whose own input bears
    /// number `acked`: those at the front whose number is not greater.
    pub fn confirm(&mut self, acked: usize)
        requires
            old(self).wf(),
        ensures
            final(self).wf(),
            final(self).next_seq() == old(self).next_seq(),
            final(self).pending() == old(self).pending().skip(
                confirmed(old(self).pending(), acked) as int,
            ),
            forall|i: int|
                0 <= i < final(self).pending().len() ==> (#[trigger] final(self).pending()[i]).seq
                    > acked,
    {
        let ghost before = self.pending@;
        let ghost mut dropped: int = 0;
        assert(before.skip(0) =~= before);
        loop
            invariant
                self.next_seq == old(self).next_seq,
                0 <= dropped <= before.len(),
                before == old(self).pending@,
                self.pending@ == before.skip(dropped),
                confirmed(before, acked) == dropped + confirmed(self.pending@, acked),
            ensures
                self.pending@ == before.skip(confirmed(before, acked) as int),
                self.next_seq == old(self).next_seq,
                before == old(self).pending@,
            decreases self.pending@.len(),
        {
            if self.pending.len() == 0 {
                break;
            }
            if self.pending[0].seq > acked {
                break;
            }
            let ghost queue = self.pending@;
            self.pending.pop_front();
            proof {
                assert(self.pending@ =~= queue.drop_first());
                assert(queue.drop_first() =~= before.skip(dropped + 1));
                dropped = dropped + 1;
            }
        }
        proof {
            lemma_confirmed(before, acked);
        }
    }

    /// Takes `snapshot` as the server's newest word for the player in slot
    /// `player`: drops the pending inputs up to the one that the snapshot
    /// holds as the player's own, and says `true`. Where the snapshot has no
    /// such player, the history stays as it is and the answer is `false`.
    pub fn reconcile(&mut self, snapshot: &GameState, player: Idx<Player>) -> (known: bool)
        requires
            old(self).wf(),
        ensures
            final(self).wf(),
            final(self).next_seq() == old(self).next_seq(),
            known == (player.slot < snapshot@.players.len() && snapshot@.players[player.slot as int]
                is Some),
            final(self).pending() == if known {
                old(self).pending().skip(
                    confirmed(
                        old(self).pending(),
                        snapshot@.players[player.slot as int].unwrap().input.seq,
                    ) as int,
                )
            } else {
                old(self).pending()
            },
    {
        match snapshot.player(player) {
            Some(own) => {
                self.confirm(own.input.seq);
                true
            },
            None => false,
        }
    }
}

} // verus!
