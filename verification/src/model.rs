//! What the protocols assume of the store, as a mathematical model: a
//! keyspace of integer scalars and of hashes with integer fields, served to
//! sessions that can watch keys and run atomic sections.
//!
//! Nothing here runs. The model states the semantics of a single primary that
//! executes one command at a time and whose clock does not go back; the laws
//! of this crate are proved of the protocols when they are served like this.

use crate::clock::{lemma_nanos_monotonic, nanos_of, not_later};
use crate::protocol::{Reply, RequestView, WriteView};
use vstd::prelude::*;

verus! {

/// The part of the store's contents that governors use.
pub struct Keyspace {
    /// The keys that hold an integer.
    pub scalars: Map<Seq<char>, u64>,
    /// The keys that hold a hash, each with its fields.
    pub hashes: Map<Seq<char>, Map<Seq<char>, u64>>,
}

impl Keyspace {
    /// The keyspace that holds nothing.
    pub open spec fn empty() -> Keyspace {
        Keyspace { scalars: Map::empty(), hashes: Map::empty() }
    }

    /// `GET key`
    pub open spec fn get(self, key: Seq<char>) -> Option<u64> {
        if self.scalars.contains_key(key) {
            Some(self.scalars[key])
        } else {
            None
        }
    }

    /// `HGET key field`
    pub open spec fn hget(self, key: Seq<char>, field: Seq<char>) -> Option<u64> {
        if self.hashes.contains_key(key) && self.hashes[key].contains_key(field) {
            Some(self.hashes[key][field])
        } else {
            None
        }
    }

    /// Whether anything is stored at `key`.
    pub open spec fn holds(self, key: Seq<char>) -> bool {
        self.scalars.contains_key(key) || self.hashes.contains_key(key)
    }

    /// The keyspace after `DEL key`.
    pub open spec fn del(self, key: Seq<char>) -> Keyspace {
        Keyspace { scalars: self.scalars.remove(key), hashes: self.hashes.remove(key) }
    }

    /// The keyspace after one write. Setting a scalar replaces whatever the
    /// key held; setting a field of a key that holds a scalar is refused and
    /// changes nothing.
    pub open spec fn write(self, w: WriteView) -> Keyspace {
        match w {
            WriteView::SetScalar { key, value } => Keyspace {
                scalars: self.scalars.insert(key, value),
                hashes: self.hashes.remove(key),
            },
            WriteView::SetField { key, field, value } => {
                if self.scalars.contains_key(key) {
                    self
                } else {
                    let fields = if self.hashes.contains_key(key) {
                        self.hashes[key]
                    } else {
                        Map::empty()
                    };
                    Keyspace {
                        scalars: self.scalars,
                        hashes: self.hashes.insert(key, fields.insert(field, value)),
                    }
                }
            },
        }
    }

    /// The keyspace after the writes of an atomic section, in order.
    pub open spec fn write_all(self, writes: Seq<WriteView>) -> Keyspace
        decreases writes.len(),
    {
        if writes.len() == 0 {
            self
        } else {
            self.write(writes[0]).write_all(writes.drop_first())
        }
    }

    /// The keyspace after each of `requests` has been carried out, in order.
    pub open spec fn effect_all(self, requests: Seq<RequestView>) -> Keyspace
        decreases requests.len(),
    {
        if requests.len() == 0 {
            self
        } else {
            self.effect_all(requests.drop_last()).effect(requests.last())
        }
    }

    /// The keyspace after `request` has been carried out; for an atomic
    /// section, after it has gone through.
    pub open spec fn effect(self, request: RequestView) -> Keyspace {
        match request {
            RequestView::Del { key } => self.del(key),
            RequestView::Atomic { writes, .. } => self.write_all(writes),
            _ => self,
        }
    }

    /// Whether `reply` is an answer to `request` when it is carried out on
    /// this keyspace. An atomic section may always be aborted. The time is
    /// the server's own and can be any.
    pub open spec fn answers(self, request: RequestView, reply: Reply) -> bool {
        match request {
            RequestView::Time => reply is Time,
            RequestView::Watch { .. } => reply == Reply::Done,
            RequestView::Get { key } => reply == Reply::Value(self.get(key)),
            RequestView::HGet { key, field } => reply == Reply::Value(self.hget(key, field)),
            RequestView::Del { .. } => reply == Reply::Done,
            RequestView::Atomic { writes, read } => reply == Reply::Aborted || reply
                == Reply::Committed(
                match read {
                    Some(key) => self.write_all(writes).get(key),
                    None => None,
                },
            ),
        }
    }

    /// Whether the two keyspaces hold the same at `key`.
    pub open spec fn same_at(self, other: Keyspace, key: Seq<char>) -> bool {
        &&& self.scalars.contains_key(key) == other.scalars.contains_key(key)
        &&& self.scalars.contains_key(key) ==> self.scalars[key] == other.scalars[key]
        &&& self.hashes.contains_key(key) == other.hashes.contains_key(key)
        &&& self.hashes.contains_key(key) ==> self.hashes[key] == other.hashes[key]
    }
}

/// Whether the write is carried out on `data`: setting a field of a key that
/// holds a scalar is refused.
pub open spec fn carried_out(data: Keyspace, w: WriteView) -> bool {
    match w {
        WriteView::SetScalar { .. } => true,
        WriteView::SetField { key, .. } => !data.scalars.contains_key(key),
    }
}

/// The keys that the writes of an atomic section signal as modified, one
/// after the other: the key of every write that is carried out.
pub open spec fn touched_by(data: Keyspace, writes: Seq<WriteView>) -> Set<Seq<char>>
    decreases writes.len(),
{
    if writes.len() == 0 {
        Set::empty()
    } else {
        let rest = touched_by(data.write(writes[0]), writes.drop_first());
        if carried_out(data, writes[0]) {
            rest.insert(writes[0].key())
        } else {
            rest
        }
    }
}

/// The keys that carrying out `request` on `data` signals as modified: the
/// keys that an atomic section writes, and a deleted key that held
/// something.
pub open spec fn touched(data: Keyspace, request: RequestView) -> Set<Seq<char>> {
    match request {
        RequestView::Del { key } => if data.holds(key) {
            set![key]
        } else {
            Set::empty()
        },
        RequestView::Atomic { writes, .. } => touched_by(data, writes),
        _ => Set::empty(),
    }
}

/// An atomic section that begins by setting a scalar signals that scalar's
/// key as modified.
pub proof fn lemma_first_scalar_is_touched(data: Keyspace, writes: Seq<WriteView>)
    requires
        writes.len() > 0,
        writes[0] is SetScalar,
    ensures
        touched_by(data, writes).contains(writes[0].key()),
{
}

/// A store with the sessions that are connected to it.
pub struct Store {
    /// What the store holds.
    pub data: Keyspace,
    /// The keys that each session watches.
    pub watching: Set<(nat, Seq<char>)>,
    /// The sessions one of whose watched keys was modified since they began
    /// to watch it.
    pub dirty: Set<nat>,
    /// The server's clock: whole seconds, and microseconds into the second.
    pub time: (u64, u64),
}

impl Store {
    /// The sessions that watch a key that `request` modifies.
    pub open spec fn disturbed(self, request: RequestView) -> Set<nat> {
        Set::new(
            |s: nat|
                exists|k: Seq<char>|
                    touched(self.data, request).contains(k) && #[trigger] self.watching.contains(
                        (s, k),
                    ),
        )
    }

    /// The watches that are left when `session` has given up all of its own.
    pub open spec fn unwatched(self, session: nat) -> Set<(nat, Seq<char>)> {
        Set::new(|w: (nat, Seq<char>)| self.watching.contains(w) && w.0 != session)
    }

    /// Whether the clock of `later` shows no earlier time than this store's.
    pub open spec fn not_after(self, later: Store) -> bool {
        not_later(self.time.0, self.time.1, later.time.0, later.time.1)
    }

    /// Whether the store, asked `request` by `session`, may give `reply` and
    /// become `next`.
    ///
    /// An atomic section goes through only for a session that is not dirty;
    /// gone through or aborted, it ends all of the session's watches. Every
    /// modification of a key makes the sessions that watch it dirty. The
    /// clock does not go back, and a reading of the time is what the clock
    /// shows when the request has been served.
    pub open spec fn serves(self, session: nat, request: RequestView, reply: Reply, next: Store) -> bool {
        &&& self.data.answers(request, reply)
        &&& self.not_after(next)
        &&& next.time.1 < 1_000_000
        &&& match request {
            RequestView::Time => {
                &&& reply == Reply::Time { secs: next.time.0, micros: next.time.1 }
                &&& next.data == self.data
                &&& next.watching == self.watching
                &&& next.dirty == self.dirty
            },
            RequestView::Watch { key } => {
                &&& next.data == self.data
                &&& next.watching == self.watching.insert((session, key))
                &&& next.dirty == self.dirty
            },
            RequestView::Del { .. } => {
                &&& next.data == self.data.effect(request)
                &&& next.watching == self.watching
                &&& next.dirty == self.dirty.union(self.disturbed(request))
            },
            RequestView::Atomic { .. } => {
                &&& next.watching == self.unwatched(session)
                &&& if reply == Reply::Aborted {
                    &&& next.data == self.data
                    &&& next.dirty == self.dirty.remove(session)
                } else {
                    &&& !self.dirty.contains(session)
                    &&& next.data == self.data.effect(request)
                    &&& next.dirty == self.dirty.union(self.disturbed(request)).remove(session)
                }
            },
            _ => {
                &&& next.data == self.data
                &&& next.watching == self.watching
                &&& next.dirty == self.dirty
            },
        }
    }

    /// Whether the store can become `next` by serving one request of some
    /// session.
    pub open spec fn precedes(self, next: Store) -> bool {
        exists|session: nat, request: RequestView, reply: Reply| #[trigger]
            self.serves(session, request, reply, next)
    }

    /// Whether the store can become `later` by serving requests: `stores`
    /// are the states that it goes through, and each follows from the one
    /// before by one request of some session.
    pub open spec fn passes(self, stores: Seq<Store>, later: Store) -> bool {
        &&& stores.len() > 0
        &&& stores.first() == self
        &&& stores.last() == later
        &&& forall|i: int|
            0 <= i < stores.len() - 1 ==> (#[trigger] stores[i]).precedes(stores[i + 1])
    }
}

/// The clock of a store that serves requests does not go back.
pub proof fn lemma_clock_does_not_go_back(store: Store, stores: Seq<Store>, later: Store)
    requires
        store.passes(stores, later),
    ensures
        store.not_after(later),
    decreases stores.len(),
{
    if stores.len() > 1 {
        let shorter = stores.drop_last();
        let before = shorter.last();
        assert(store.passes(shorter, before)) by {
            assert forall|i: int| 0 <= i < shorter.len() - 1 implies (#[trigger] shorter[i]).precedes(
                shorter[i + 1],
            ) by {
                assert(shorter[i] == stores[i] && shorter[i + 1] == stores[i + 1]);
            }
        }
        lemma_clock_does_not_go_back(store, shorter, before);
        assert(before == stores[stores.len() - 2]);
        assert(before.precedes(later));
    }
}

/// Of two successive readings of the time the second gives no earlier
/// instant: where a session reads the time, requests are served, and a
/// session reads the time again, the nanoseconds of the second reading are
/// no fewer than those of the first.
pub proof fn lemma_successive_readings_grow(
    store: Store,
    first_session: nat,
    first: Reply,
    read: Store,
    between: Seq<Store>,
    again: Store,
    second_session: nat,
    second: Reply,
    last: Store,
)
    requires
        store.serves(first_session, RequestView::Time, first, read),
        read.passes(between, again),
        again.serves(second_session, RequestView::Time, second, last),
    ensures
        first is Time,
        second is Time,
        nanos_of(first->Time_secs, first->Time_micros) <= nanos_of(
            second->Time_secs,
            second->Time_micros,
        ),
{
    lemma_clock_does_not_go_back(read, between, again);
    lemma_nanos_monotonic(read.time.0, read.time.1, last.time.0, last.time.1);
}

/// The store has an answer to every request: it may always abort an atomic
/// section, and it may let the section of a session that is not dirty go
/// through.
pub proof fn lemma_store_serves(store: Store, session: nat, request: RequestView)
    requires
        store.time.1 < 1_000_000,
    ensures
        exists|reply: Reply, next: Store| store.serves(session, request, reply, next),
        request is Atomic && !store.dirty.contains(session) ==> exists|reply: Reply, next: Store|
            reply is Committed && store.serves(session, request, reply, next),
{
    match request {
        RequestView::Time => {
            let reply = Reply::Time { secs: store.time.0, micros: store.time.1 };
            assert(store.serves(session, request, reply, store));
        },
        RequestView::Watch { key } => {
            let next = Store { watching: store.watching.insert((session, key)), ..store };
            assert(store.serves(session, request, Reply::Done, next));
        },
        RequestView::Get { key } => {
            assert(store.serves(session, request, Reply::Value(store.data.get(key)), store));
        },
        RequestView::HGet { key, field } => {
            assert(store.serves(session, request, Reply::Value(store.data.hget(key, field)), store));
        },
        RequestView::Del { key } => {
            let next = Store {
                data: store.data.effect(request),
                dirty: store.dirty.union(store.disturbed(request)),
                ..store
            };
            assert(store.serves(session, request, Reply::Done, next));
        },
        RequestView::Atomic { writes, read } => {
            let aborted = Store {
                watching: store.unwatched(session),
                dirty: store.dirty.remove(session),
                ..store
            };
            assert(store.serves(session, request, Reply::Aborted, aborted));
            if !store.dirty.contains(session) {
                let reply = Reply::Committed(
                    match read {
                        Some(key) => store.data.write_all(writes).get(key),
                        None => None,
                    },
                );
                let next = Store {
                    data: store.data.effect(request),
                    watching: store.unwatched(session),
                    dirty: store.dirty.union(store.disturbed(request)).remove(session),
                    ..store
                };
                assert(reply is Committed && store.serves(session, request, reply, next));
            }
        },
    }
}

} // verus!
