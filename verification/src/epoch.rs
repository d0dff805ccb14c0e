//! The fleet's epoch is elected once: however many sessions run elections
//! side by side, the first atomic section that goes through writes the
//! epoch, none after it does, and every election ends with that value.

use crate::clock::{ElectionStage, ElectionView};
use crate::model::{lemma_first_scalar_is_touched, Keyspace, Store};
use crate::protocol::Reply;
use vstd::prelude::*;

verus! {

/// Sessions that run elections of one epoch against one store.
pub struct ElectionFleet {
    /// The key of the epoch.
    pub start_key: Seq<char>,
    /// The store that serves the sessions.
    pub store: Store,
    /// The election that each session has in flight or has finished.
    pub elections: Map<nat, ElectionView>,
}

/// What can happen to a fleet in one step.
pub enum ElectionMove {
    /// The session begins an election, whatever it was doing before.
    Begin(nat),
    /// The store serves what the session's election has asked for, with this
    /// reply, and the election takes the reply in.
    Serve(nat, Reply),
    /// Somebody changes the store elsewhere: the epoch's key is neither
    /// written nor deleted. Sessions may become dirty on the way.
    Elsewhere,
}

impl ElectionFleet {
    /// Whether the fleet can become `next` by `step`.
    pub open spec fn moves(self, step: ElectionMove, next: ElectionFleet) -> bool {
        &&& next.start_key == self.start_key
        &&& match step {
            ElectionMove::Begin(session) => {
                &&& next.store == self.store
                &&& next.elections == self.elections.insert(
                    session,
                    ElectionView { start_key: self.start_key, stage: ElectionStage::Watching },
                )
            },
            ElectionMove::Serve(session, reply) => {
                &&& self.elections.contains_key(session)
                &&& self.elections[session].pending() is Send
                &&& self.store.serves(
                    session,
                    self.elections[session].pending()->Send_0,
                    reply,
                    next.store,
                )
                &&& next.elections == self.elections.insert(
                    session,
                    self.elections[session].after(reply),
                )
            },
            ElectionMove::Elsewhere => {
                &&& next.elections == self.elections
                &&& next.store.watching == self.store.watching
                &&& self.store.dirty.subset_of(next.store.dirty)
                &&& next.store.data.get(self.start_key) == self.store.data.get(self.start_key)
            },
        }
    }

    /// The epoch that the store holds, if one has been elected.
    pub open spec fn epoch(self) -> Option<u64> {
        self.store.data.get(self.start_key)
    }

    /// What holds of a session's election at every moment.
    pub open spec fn session_sound(self, session: nat) -> bool {
        let election = self.elections[session];
        &&& election.start_key == self.start_key
        &&& match election.stage {
            ElectionStage::Reading => self.store.watching.contains((session, self.start_key)),
            ElectionStage::Timing | ElectionStage::Committing(_) => {
                &&& self.store.watching.contains((session, self.start_key))
                &&& (self.epoch() is None || self.store.dirty.contains(session))
            },
            ElectionStage::Elected(epoch) => self.epoch() == Some(epoch),
            _ => true,
        }
    }

    /// What holds of a fleet at every moment: an election that has found no
    /// epoch watches the key, and is dirty if an epoch has been written
    /// since; an election that has ended holds the epoch that the store
    /// holds.
    pub open spec fn sound(self) -> bool {
        forall|session: nat| #[trigger]
            self.elections.contains_key(session) ==> self.session_sound(session)
    }
}

/// A fleet in which no election has begun is sound, whatever the store
/// holds.
pub proof fn lemma_fresh_fleet_is_sound(fleet: ElectionFleet)
    requires
        fleet.elections == Map::<nat, ElectionView>::empty(),
    ensures
        fleet.sound(),
{
}

/// Once written, the epoch is never overwritten: no step of a sound fleet
/// changes an epoch that the store holds.
pub proof fn lemma_epoch_is_never_overwritten(
    fleet: ElectionFleet,
    step: ElectionMove,
    next: ElectionFleet,
)
    requires
        fleet.sound(),
        fleet.moves(step, next),
        fleet.epoch() is Some,
    ensures
        next.epoch() == fleet.epoch(),
{
}

/// Soundness is kept by every step.
pub proof fn lemma_soundness_is_kept(fleet: ElectionFleet, step: ElectionMove, next: ElectionFleet)
    requires
        fleet.sound(),
        fleet.moves(step, next),
    ensures
        next.sound(),
{
    assert forall|other: nat| #[trigger] next.elections.contains_key(other) implies next.session_sound(
        other,
    ) by {
        if let ElectionMove::Serve(session, reply) = step {
            let request = fleet.elections[session].pending()->Send_0;
            if request is Atomic && reply != Reply::Aborted {
                if other != session {
                    // The epoch is written: whoever watches its key is dirty now.
                    lemma_first_scalar_is_touched(fleet.store.data, request->Atomic_writes);
                } else {
                    // The section reads back what it has just written.
                    reveal_with_fuel(Keyspace::write_all, 2);
                }
            }
        }
    }
}

/// Whether `fleets` are the states of a fleet that begins with no election
/// and takes `steps` one after the other.
pub open spec fn election_run(fleets: Seq<ElectionFleet>, steps: Seq<ElectionMove>) -> bool {
    &&& fleets.len() == steps.len() + 1
    &&& fleets[0].elections == Map::<nat, ElectionView>::empty()
    &&& forall|i: int| 0 <= i < steps.len() ==> (#[trigger] fleets[i]).moves(steps[i], fleets[i + 1])
}

/// A fleet is sound all along a run.
pub proof fn lemma_run_is_sound(fleets: Seq<ElectionFleet>, steps: Seq<ElectionMove>, i: int)
    requires
        election_run(fleets, steps),
        0 <= i < fleets.len(),
    ensures
        fleets[i].sound(),
    decreases i,
{
    if i == 0 {
        lemma_fresh_fleet_is_sound(fleets[0]);
    } else {
        lemma_run_is_sound(fleets, steps, i - 1);
        lemma_soundness_is_kept(fleets[i - 1], steps[i - 1], fleets[i]);
    }
}

/// Epoch uniqueness: the value with which an election ends is the epoch
/// that the store holds from then on. So after any number of elections,
/// run side by side in any order, the store holds a single epoch, and it is
/// the value that every caller was given.
pub proof fn lemma_one_epoch_for_all(
    fleets: Seq<ElectionFleet>,
    steps: Seq<ElectionMove>,
    i: int,
    session: nat,
    j: int,
)
    requires
        election_run(fleets, steps),
        0 <= i <= j < fleets.len(),
        fleets[i].elections.contains_key(session),
        fleets[i].elections[session].stage is Elected,
    ensures
        fleets[j].epoch() == Some(fleets[i].elections[session].stage->Elected_0),
    decreases j - i,
{
    if i == j {
        lemma_run_is_sound(fleets, steps, i);
    } else {
        lemma_one_epoch_for_all(fleets, steps, i, session, j - 1);
        lemma_run_is_sound(fleets, steps, j - 1);
        lemma_epoch_is_never_overwritten(fleets[j - 1], steps[j - 1], fleets[j]);
    }
}

/// Every caller is given the one epoch: two elections of a sound fleet that
/// have ended hold the same value, the one that the store holds.
pub proof fn lemma_callers_agree(fleet: ElectionFleet, a: nat, b: nat)
    requires
        fleet.sound(),
        fleet.elections.contains_key(a),
        fleet.elections.contains_key(b),
        fleet.elections[a].stage is Elected,
        fleet.elections[b].stage is Elected,
    ensures
        fleet.elections[a].stage == fleet.elections[b].stage,
        fleet.epoch() == Some(fleet.elections[a].stage->Elected_0),
{
}

} // verus!
