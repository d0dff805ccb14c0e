//! Namespace isolation: what a governor asks of the store names keys of its
//! own namespace only, so governors with distinct prefixes neither read nor
//! change each other's keys.

use crate::clock::ElectionView;
use crate::keys::{
    hash_key_of, in_namespace, is_digest, lemma_namespaces_disjoint, lemma_own_keys_in_namespace,
    sentinel_key_of, start_key_of,
};
use crate::model::Keyspace;
use crate::protocol::{Reply, RequestView, WriteView};
use crate::state::{Event, ReplacementView, StepView};
use vstd::prelude::*;

verus! {

/// The atomic section by which an election writes its candidate.
pub open spec fn election_commit(prefix: Seq<char>, candidate: u64) -> RequestView {
    RequestView::Atomic {
        writes: seq![WriteView::SetScalar { key: start_key_of(prefix), value: candidate }],
        read: Some(start_key_of(prefix)),
    }
}

/// The atomic section by which a replacement writes a cell's new value.
pub open spec fn cell_commit(prefix: Seq<char>, digest: Seq<char>, value: u64) -> RequestView {
    RequestView::Atomic {
        writes: seq![
            WriteView::SetScalar { key: sentinel_key_of(prefix, digest), value },
            WriteView::SetField { key: hash_key_of(prefix), field: digest, value },
        ],
        read: None,
    }
}

/// The requests that a governor with this prefix asks for: those of an
/// election of its epoch, of a replacement of one of its cells, and of a
/// wipe.
pub open spec fn asked_under(prefix: Seq<char>, request: RequestView) -> bool {
    match request {
        RequestView::Time => true,
        RequestView::Watch { key } => key == start_key_of(prefix) || exists|d: Seq<char>|
            is_digest(d) && key == #[trigger] sentinel_key_of(prefix, d),
        RequestView::Get { key } => key == start_key_of(prefix),
        RequestView::HGet { key, field } => key == hash_key_of(prefix) && is_digest(field),
        RequestView::Del { key } => key == start_key_of(prefix) || key == hash_key_of(prefix),
        RequestView::Atomic { .. } => {
            ||| exists|candidate: u64| request == #[trigger] election_commit(prefix, candidate)
            ||| exists|d: Seq<char>, value: u64|
                is_digest(d) && request == #[trigger] cell_commit(prefix, d, value)
        },
    }
}

/// Whatever an election of the epoch of `prefix` asks to have sent is a
/// request of that governor.
pub proof fn lemma_election_asks(election: ElectionView, prefix: Seq<char>)
    requires
        election.start_key == start_key_of(prefix),
        election.pending() is Send,
    ensures
        asked_under(prefix, election.pending()->Send_0),
{
    let request = election.pending()->Send_0;
    if request is Atomic {
        let candidate = election.stage->Committing_0;
        assert(request == election_commit(prefix, candidate));
    }
}

/// Whatever the replacement of the cell with digest `d` under `prefix`
/// waits to have answered, or asks to have sent when an event comes in, is a
/// request of that governor.
pub proof fn lemma_replacement_asks<T, E>(
    replacement: ReplacementView<T>,
    event: Event<T, E>,
    prefix: Seq<char>,
    d: Seq<char>,
)
    requires
        is_digest(d),
        replacement.sentinel == sentinel_key_of(prefix, d),
        replacement.hash_key == hash_key_of(prefix),
        replacement.field == d,
    ensures
        replacement.asks() is Some ==> asked_under(prefix, replacement.asks()->0),
        replacement.emits(event) is Send ==> asked_under(prefix, replacement.emits(event)->Send_0),
{
    if let Some(request) = replacement.asks() {
        if request is Atomic {
            assert(request == cell_commit(prefix, d, replacement.stage->Committing_1));
        }
    }
    if let StepView::Send(request) = replacement.emits(event) {
        if request is Atomic {
            assert(request == cell_commit(prefix, d, event->Accept_1));
        }
    }
}

/// The two requests of a wipe, and the reading of the time, are requests of
/// the governor.
pub proof fn lemma_wipe_asks(prefix: Seq<char>)
    ensures
        asked_under(prefix, RequestView::Del { key: start_key_of(prefix) }),
        asked_under(prefix, RequestView::Del { key: hash_key_of(prefix) }),
        asked_under(prefix, RequestView::Time),
{
}

/// Every key that a request of a governor names lies in the governor's
/// namespace.
pub proof fn lemma_asked_keys_in_namespace(prefix: Seq<char>, request: RequestView, key: Seq<char>)
    requires
        asked_under(prefix, request),
        request.keys().contains(key),
    ensures
        in_namespace(prefix, key),
{
    lemma_own_keys_in_namespace(prefix, Seq::empty());
    match request {
        RequestView::Watch { key: watched } => {
            if watched != start_key_of(prefix) {
                let d = choose|d: Seq<char>|
                    is_digest(d) && watched == #[trigger] sentinel_key_of(prefix, d);
                lemma_own_keys_in_namespace(prefix, d);
            }
        },
        RequestView::Atomic { writes, read } => {
            if !exists|candidate: u64| request == #[trigger] election_commit(prefix, candidate) {
                let (d, value) = choose|d: Seq<char>, value: u64|
                    is_digest(d) && request == #[trigger] cell_commit(prefix, d, value);
                lemma_own_keys_in_namespace(prefix, d);
            }
        },
        _ => {},
    }
}

/// A write changes nothing at a key other than its own.
pub proof fn lemma_write_frame(data: Keyspace, w: WriteView, key: Seq<char>)
    requires
        key != w.key(),
    ensures
        data.write(w).same_at(data, key),
{
}

/// The writes of an atomic section change nothing at a key that none of them
/// names.
pub proof fn lemma_write_all_frame(data: Keyspace, writes: Seq<WriteView>, key: Seq<char>)
    requires
        forall|i: int| 0 <= i < writes.len() ==> key != (#[trigger] writes[i]).key(),
    ensures
        data.write_all(writes).same_at(data, key),
    decreases writes.len(),
{
    if writes.len() > 0 {
        lemma_write_frame(data, writes[0], key);
        let rest = writes.drop_first();
        assert forall|i: int| 0 <= i < rest.len() implies key != (#[trigger] rest[i]).key() by {
            assert(rest[i] == writes[i + 1]);
        }
        lemma_write_all_frame(data.write(writes[0]), rest, key);
    }
}

/// Carrying out a request changes nothing at a key that it does not name.
pub proof fn lemma_effect_frame(data: Keyspace, request: RequestView, key: Seq<char>)
    requires
        !request.keys().contains(key),
    ensures
        data.effect(request).same_at(data, key),
{
    match request {
        RequestView::Atomic { writes, read } => {
            assert forall|i: int| 0 <= i < writes.len() implies key != (#[trigger] writes[i]).key() by {
                if key == writes[i].key() {
                    assert(request.keys().contains(key));
                }
            }
            lemma_write_all_frame(data, writes, key);
        },
        _ => {},
    }
}

/// Two keyspaces that hold the same at a key still do so after the same
/// write.
pub proof fn lemma_write_same_at(a: Keyspace, b: Keyspace, w: WriteView, key: Seq<char>)
    requires
        a.same_at(b, key),
        a.same_at(b, w.key()),
    ensures
        a.write(w).same_at(b.write(w), key),
{
}

/// Two keyspaces that hold the same at a key, and at every key that an
/// atomic section writes, hold the same at that key after the section.
pub proof fn lemma_write_all_same_at(a: Keyspace, b: Keyspace, writes: Seq<WriteView>, key: Seq<char>)
    requires
        a.same_at(b, key),
        forall|i: int| 0 <= i < writes.len() ==> a.same_at(b, (#[trigger] writes[i]).key()),
    ensures
        a.write_all(writes).same_at(b.write_all(writes), key),
        forall|i: int|
            0 <= i < writes.len() ==> a.write_all(writes).same_at(
                b.write_all(writes),
                (#[trigger] writes[i]).key(),
            ),
    decreases writes.len(),
{
    if writes.len() > 0 {
        let w = writes[0];
        let rest = writes.drop_first();
        lemma_write_same_at(a, b, w, key);
        assert forall|i: int| 0 <= i < rest.len() implies a.write(w).same_at(
            b.write(w),
            (#[trigger] rest[i]).key(),
        ) by {
            assert(rest[i] == writes[i + 1]);
            lemma_write_same_at(a, b, w, rest[i].key());
        }
        lemma_write_all_same_at(a.write(w), b.write(w), rest, key);
        lemma_write_same_at(a, b, w, w.key());
        lemma_write_all_same_at(a.write(w), b.write(w), rest, w.key());
        assert forall|i: int| 0 <= i < writes.len() implies a.write_all(writes).same_at(
            b.write_all(writes),
            (#[trigger] writes[i]).key(),
        ) by {
            if i > 0 {
                assert(writes[i] == rest[i - 1]);
            }
        }
    }
}

/// The answer to a request depends on nothing but the keys that it names.
pub proof fn lemma_answer_frame(a: Keyspace, b: Keyspace, request: RequestView, reply: Reply)
    requires
        forall|key: Seq<char>| request.keys().contains(key) ==> a.same_at(b, key),
        a.answers(request, reply),
    ensures
        b.answers(request, reply),
{
    match request {
        RequestView::Get { key } => {
            assert(request.keys().contains(key));
        },
        RequestView::HGet { key, field } => {
            assert(request.keys().contains(key));
        },
        RequestView::Atomic { writes, read } => {
            if let Some(key) = read {
                assert forall|i: int| 0 <= i < writes.len() implies a.same_at(
                    b,
                    (#[trigger] writes[i]).key(),
                ) by {
                    assert(request.keys().contains(writes[i].key()));
                }
                lemma_write_all_same_at(a, b, writes, key);
            }
        },
        _ => {},
    }
}

/// Operations under one prefix do not change any key under another: a
/// request of the governor with prefix `prefix` leaves every key of the
/// namespace of a distinct prefix `other` as it was.
pub proof fn lemma_no_write_across_namespaces(
    prefix: Seq<char>,
    other: Seq<char>,
    request: RequestView,
    data: Keyspace,
    key: Seq<char>,
)
    requires
        prefix != other,
        asked_under(prefix, request),
        in_namespace(other, key),
    ensures
        data.effect(request).same_at(data, key),
{
    if request.keys().contains(key) {
        lemma_asked_keys_in_namespace(prefix, request, key);
        lemma_namespaces_disjoint(prefix, other, key);
    }
    lemma_effect_frame(data, request, key);
}

/// Operations under one prefix do not read any key under another: the
/// answers to a request of the governor with prefix `prefix` are the same on two
/// keyspaces that differ only outside the namespace of `prefix`.
pub proof fn lemma_no_read_across_namespaces(
    prefix: Seq<char>,
    request: RequestView,
    a: Keyspace,
    b: Keyspace,
    reply: Reply,
)
    requires
        asked_under(prefix, request),
        forall|key: Seq<char>| in_namespace(prefix, key) ==> a.same_at(b, key),
    ensures
        a.answers(request, reply) == b.answers(request, reply),
{
    assert forall|key: Seq<char>| request.keys().contains(key) implies a.same_at(b, key)
        && b.same_at(a, key) by {
        lemma_asked_keys_in_namespace(prefix, request, key);
    }
    if a.answers(request, reply) {
        lemma_answer_frame(a, b, request, reply);
    }
    if b.answers(request, reply) {
        lemma_answer_frame(b, a, request, reply);
    }
}

} // verus!
