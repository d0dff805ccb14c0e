//! Replacements under contention: however many sessions replace cells side
//! by side, an atomic section goes through only if the decision behind it
//! was made on the value that the cell still holds, and the cell is written
//! exactly as often as an outcome is handed out as accepted.

use crate::coherence::lemma_keys_apart;
use crate::keys::{
    hash_key_of, in_namespace, is_digest, lemma_own_keys_in_namespace, sentinel_key_of,
};
use crate::model::{lemma_first_scalar_is_touched, Keyspace, Store};
use crate::protocol::{Reply, RequestView, WriteView};
use crate::state::{Event, ReplacementView, Stage, StepView};
use vstd::prelude::*;

verus! {

/// Sessions that replace cells of one governor against one store, and a
/// monitor that counts.
pub struct CellFleet<T> {
    /// The governor's prefix.
    pub prefix: Seq<char>,
    /// The store that serves the sessions.
    pub store: Store,
    /// The replacement that each session has in flight or has finished.
    pub replacements: Map<nat, ReplacementView<T>>,
    /// The value of the cell that each session last read.
    pub seen: Map<nat, Option<u64>>,
    /// For each field of the hash, how many atomic sections that write it
    /// have gone through.
    pub written: spec_fn(Seq<char>) -> nat,
    /// For each field of the hash, how many outcomes of replacements of its
    /// cell have been handed out as accepted.
    pub accepted: spec_fn(Seq<char>) -> nat,
}

/// What can happen to a fleet in one step.
pub enum CellMove<T, E> {
    /// The session begins to replace the cell with this digest, whatever it
    /// was doing before.
    Begin(nat, Seq<char>),
    /// The session's replacement is fed: with the store's reply to what it
    /// has asked for, or with a decision.
    Feed(nat, Event<T, E>),
    /// Somebody changes the store elsewhere: no key of the governor's
    /// namespace is touched. Sessions may become dirty on the way.
    Elsewhere,
}

/// Whether `w` writes the field of the hash.
pub open spec fn writes_field(w: WriteView, hash_key: Seq<char>, field: Seq<char>) -> bool {
    w matches WriteView::SetField { key, field: written, .. } && key == hash_key && written == field
}

/// Whether the atomic section `request` writes the field of the hash.
pub open spec fn writes_cell(request: RequestView, hash_key: Seq<char>, field: Seq<char>) -> bool {
    &&& request is Atomic
    &&& exists|i: int|
        0 <= i < request->Atomic_writes.len() && writes_field(
            #[trigger] request->Atomic_writes[i],
            hash_key,
            field,
        )
}

impl<T> CellFleet<T> {
    /// The replacement of the cell with this digest, about to begin.
    pub open spec fn begun(self, digest: Seq<char>) -> ReplacementView<T> {
        ReplacementView {
            sentinel: sentinel_key_of(self.prefix, digest),
            hash_key: hash_key_of(self.prefix),
            field: digest,
            stage: Stage::Watching,
        }
    }

    /// Whether the fleet can become `next` by `step`.
    pub open spec fn moves<E>(self, step: CellMove<T, E>, next: CellFleet<T>) -> bool {
        &&& next.prefix == self.prefix
        &&& match step {
            CellMove::Begin(session, digest) => {
                &&& is_digest(digest)
                &&& next.store == self.store
                &&& next.replacements == self.replacements.insert(session, self.begun(digest))
                &&& next.seen == self.seen
                &&& next.written == self.written
                &&& next.accepted == self.accepted
            },
            CellMove::Feed(session, event) => {
                &&& self.replacements.contains_key(session)
                &&& next.replacements == self.replacements.insert(
                    session,
                    self.replacements[session].after(event),
                )
                &&& self.fed(session, event, next)
            },
            CellMove::Elsewhere => {
                &&& next.replacements == self.replacements
                &&& next.seen == self.seen
                &&& next.written == self.written
                &&& next.accepted == self.accepted
                &&& next.store.watching == self.store.watching
                &&& self.store.dirty.subset_of(next.store.dirty)
                &&& forall|key: Seq<char>| #[trigger]
                    in_namespace(self.prefix, key) ==> next.store.data.same_at(self.store.data, key)
            },
        }
    }

    /// What feeding `event` to the session's replacement does to the store
    /// and to the monitor.
    pub open spec fn fed<E>(self, session: nat, event: Event<T, E>, next: CellFleet<T>) -> bool {
        let replacement = self.replacements[session];
        &&& match event {
            Event::Reply(reply) => {
                &&& replacement.asks() is Some
                &&& self.store.serves(session, replacement.asks()->0, reply, next.store)
                &&& next.seen == if replacement.stage is Reading && reply is Value {
                    self.seen.insert(session, reply->Value_0)
                } else {
                    self.seen
                }
                &&& forall|field: Seq<char>| #[trigger]
                    (next.written)(field) == (self.written)(field) + if reply is Committed
                        && writes_cell(replacement.asks()->0, hash_key_of(self.prefix), field) {
                        1nat
                    } else {
                        0nat
                    }
            },
            _ => {
                &&& next.store == self.store
                &&& next.seen == self.seen
                &&& next.written == self.written
            },
        }
        &&& forall|field: Seq<char>| #[trigger]
            (next.accepted)(field) == (self.accepted)(field) + if field == replacement.field && (
            replacement.emits(event) matches StepView::Done(Ok(_))) {
                1nat
            } else {
                0nat
            }
    }

    /// The value that the session's cell holds.
    pub open spec fn cell(self, session: nat) -> Option<u64> {
        self.store.data.hget(hash_key_of(self.prefix), self.replacements[session].field)
    }

    /// What holds of a session's replacement at every moment.
    pub open spec fn session_sound(self, session: nat) -> bool {
        let replacement = self.replacements[session];
        &&& is_digest(replacement.field)
        &&& replacement.sentinel == sentinel_key_of(self.prefix, replacement.field)
        &&& replacement.hash_key == hash_key_of(self.prefix)
        &&& match replacement.stage {
            Stage::Reading => self.store.watching.contains((session, replacement.sentinel)),
            Stage::Deciding(prev) => {
                &&& self.store.watching.contains((session, replacement.sentinel))
                &&& self.seen.contains_key(session)
                &&& self.seen[session] == prev
                &&& (self.cell(session) == prev || self.store.dirty.contains(session))
            },
            Stage::Committing(_, _) => {
                &&& self.store.watching.contains((session, replacement.sentinel))
                &&& self.seen.contains_key(session)
                &&& (self.cell(session) == self.seen[session] || self.store.dirty.contains(session))
            },
            _ => true,
        }
    }

    /// What holds of a fleet at every moment: a replacement that has read
    /// its cell watches the sentinel, and is dirty if the cell has been
    /// written since; and each cell has been written as often as an outcome
    /// for it has been handed out as accepted.
    pub open spec fn sound(self) -> bool {
        &&& forall|session: nat| #[trigger]
            self.replacements.contains_key(session) ==> self.session_sound(session)
        &&& forall|field: Seq<char>| #[trigger] (self.written)(field) == (self.accepted)(field)
    }
}

/// A fleet in which no replacement has begun and nothing has been counted
/// is sound, whatever the store holds.
pub proof fn lemma_fresh_fleet_is_sound<T>(fleet: CellFleet<T>)
    requires
        fleet.replacements == Map::<nat, ReplacementView<T>>::empty(),
        forall|field: Seq<char>| #[trigger] (fleet.written)(field) == 0,
        forall|field: Seq<char>| #[trigger] (fleet.accepted)(field) == 0,
    ensures
        fleet.sound(),
{
}

/// The fields that the atomic section of a replacement writes: its own, and
/// no other.
proof fn lemma_commit_writes_its_cell<T>(replacement: ReplacementView<T>, value: u64, field: Seq<char>)
    ensures
        writes_cell(replacement.commit(value), replacement.hash_key, field) <==> field
            == replacement.field,
{
    if field == replacement.field {
        let writes = replacement.commit(value)->Atomic_writes;
        assert(writes_field(writes[1], replacement.hash_key, field));
    }
}

/// The cell of another field is as it was after the atomic section of a
/// replacement has gone through.
proof fn lemma_commit_spares_other_cells(
    data: Keyspace,
    prefix: Seq<char>,
    d: Seq<char>,
    value: u64,
    other: Seq<char>,
)
    requires
        is_digest(d),
        other != d,
    ensures
        data.write_all(
            seq![
                WriteView::SetScalar { key: sentinel_key_of(prefix, d), value },
                WriteView::SetField { key: hash_key_of(prefix), field: d, value },
            ],
        ).hget(hash_key_of(prefix), other) == data.hget(hash_key_of(prefix), other),
{
    lemma_keys_apart(prefix, d, d);
    reveal_with_fuel(Keyspace::write_all, 3);
}

/// No update is lost: when the atomic section of a replacement goes
/// through, the cell still holds the value that the replacement read and
/// that the decision behind the section was made on.
pub proof fn lemma_commit_is_on_current_value<T, E>(
    fleet: CellFleet<T>,
    session: nat,
    read: Option<u64>,
    next: CellFleet<T>,
)
    requires
        fleet.sound(),
        fleet.moves(CellMove::<T, E>::Feed(session, Event::Reply(Reply::Committed(read))), next),
    ensures
        fleet.replacements[session].stage is Committing,
        fleet.cell(session) == fleet.seen[session],
{
}

/// Of two replacements of one cell that have both read it, at most one
/// wins: when the atomic section of one goes through, the other is dirty,
/// so its own section will be aborted and it will read and decide again.
pub proof fn lemma_rival_must_try_again<T, E>(
    fleet: CellFleet<T>,
    winner: nat,
    read: Option<u64>,
    next: CellFleet<T>,
    rival: nat,
)
    requires
        fleet.sound(),
        fleet.moves(CellMove::<T, E>::Feed(winner, Event::Reply(Reply::Committed(read))), next),
        rival != winner,
        fleet.replacements.contains_key(rival),
        fleet.replacements[rival].field == fleet.replacements[winner].field,
        fleet.replacements[rival].stage is Deciding || fleet.replacements[rival].stage is Committing,
    ensures
        next.replacements[rival] == fleet.replacements[rival],
        next.store.dirty.contains(rival),
        forall|value: u64, reply: Reply, after: Store| #[trigger]
            next.store.serves(rival, next.replacements[rival].commit(value), reply, after)
                ==> reply == Reply::Aborted,
{
    // The winner's section sets the sentinel, which the rival watches.
    let request = fleet.replacements[winner].asks()->0;
    lemma_first_scalar_is_touched(fleet.store.data, request->Atomic_writes);
}

/// Soundness is kept by every step.
pub proof fn lemma_soundness_is_kept<T, E>(fleet: CellFleet<T>, step: CellMove<T, E>, next: CellFleet<T>)
    requires
        fleet.sound(),
        fleet.moves(step, next),
    ensures
        next.sound(),
{
    match step {
        CellMove::Begin(session, digest) => {},
        CellMove::Elsewhere => {
            assert forall|other: nat| #[trigger]
                next.replacements.contains_key(other) implies next.session_sound(other) by {
                lemma_own_keys_in_namespace(fleet.prefix, fleet.replacements[other].field);
            }
        },
        CellMove::Feed(session, event) => {
            let replacement = fleet.replacements[session];
            assert forall|field: Seq<char>| #[trigger]
                (next.written)(field) == (next.accepted)(field) by {
                if let Stage::Committing(_, value) = replacement.stage {
                    lemma_commit_writes_its_cell(replacement, value, field);
                }
            }
            assert forall|other: nat| #[trigger]
                next.replacements.contains_key(other) implies next.session_sound(other) by {
                if other != session {
                    let theirs = fleet.replacements[other];
                    if let Event::Reply(reply) = event {
                        let request = replacement.asks()->0;
                        if request is Atomic && reply != Reply::Aborted {
                            if theirs.field == replacement.field {
                                // Their sentinel is set: they are dirty now.
                                lemma_first_scalar_is_touched(
                                    fleet.store.data,
                                    request->Atomic_writes,
                                );
                            } else {
                                lemma_commit_spares_other_cells(
                                    fleet.store.data,
                                    fleet.prefix,
                                    replacement.field,
                                    replacement.stage->Committing_1,
                                    theirs.field,
                                );
                            }
                        }
                    }
                }
            }
        },
    }
}

/// Whether `fleets` are the states of a fleet that begins with no
/// replacement and nothing counted, and takes `steps` one after the other.
pub open spec fn cell_run<T, E>(fleets: Seq<CellFleet<T>>, steps: Seq<CellMove<T, E>>) -> bool {
    &&& fleets.len() == steps.len() + 1
    &&& fleets[0].replacements == Map::<nat, ReplacementView<T>>::empty()
    &&& forall|field: Seq<char>| #[trigger] (fleets[0].written)(field) == 0
    &&& forall|field: Seq<char>| #[trigger] (fleets[0].accepted)(field) == 0
    &&& forall|i: int| 0 <= i < steps.len() ==> (#[trigger] fleets[i]).moves(steps[i], fleets[i + 1])
}

/// A fleet is sound all along a run.
pub proof fn lemma_run_is_sound<T, E>(fleets: Seq<CellFleet<T>>, steps: Seq<CellMove<T, E>>, i: int)
    requires
        cell_run(fleets, steps),
        0 <= i < fleets.len(),
    ensures
        fleets[i].sound(),
    decreases i,
{
    if i == 0 {
        lemma_fresh_fleet_is_sound(fleets[0]);
    } else {
        lemma_run_is_sound(fleets, steps, i - 1);
        lemma_soundness_is_kept(fleets[i - 1], steps[i - 1], fleets[i]);
    }
}

/// No update is lost in a run: whenever the atomic section of a replacement
/// goes through, the cell holds the value that the replacement read.
pub proof fn lemma_no_update_is_lost<T, E>(
    fleets: Seq<CellFleet<T>>,
    steps: Seq<CellMove<T, E>>,
    i: int,
    session: nat,
    read: Option<u64>,
)
    requires
        cell_run(fleets, steps),
        0 <= i < steps.len(),
        steps[i] == CellMove::<T, E>::Feed(session, Event::Reply(Reply::Committed(read))),
    ensures
        fleets[i].cell(session) == fleets[i].seen[session],
{
    lemma_run_is_sound(fleets, steps, i);
    lemma_commit_is_on_current_value::<T, E>(fleets[i], session, read, fleets[i + 1]);
}

/// Conservation: at every moment of a run, however the sessions take their
/// turns, each cell has been written exactly as often as a replacement of
/// it has handed out an accepted outcome.
pub proof fn lemma_writes_match_accepts<T, E>(
    fleets: Seq<CellFleet<T>>,
    steps: Seq<CellMove<T, E>>,
    i: int,
    field: Seq<char>,
)
    requires
        cell_run(fleets, steps),
        0 <= i < fleets.len(),
    ensures
        (fleets[i].written)(field) == (fleets[i].accepted)(field),
{
    lemma_run_is_sound(fleets, steps, i);
}

} // verus!
