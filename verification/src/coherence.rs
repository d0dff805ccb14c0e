//! Coherence of a cell and its sentinel: the two are written together, so
//! wherever the hash holds a cell, the entry's sentinel holds the same value.

use crate::isolation::{
    asked_under, cell_commit, election_commit, lemma_no_write_across_namespaces,
};
use crate::keys::{
    hash_key_of, is_digest, key_of, lemma_key_of_injective, lemma_own_keys_in_namespace,
    sentinel_key_of, start_key_of, KeyName,
};
use crate::model::Keyspace;
use crate::protocol::RequestView;
use vstd::prelude::*;

verus! {

/// Whether every cell under `prefix` agrees with its sentinel, and the key
/// of the hash holds no scalar.
pub open spec fn coherent(data: Keyspace, prefix: Seq<char>) -> bool {
    &&& !data.scalars.contains_key(hash_key_of(prefix))
    &&& forall|d: Seq<char>|
        is_digest(d) && data.hget(hash_key_of(prefix), d) is Some ==> data.get(
            #[trigger] sentinel_key_of(prefix, d),
        ) == data.hget(hash_key_of(prefix), d)
}

/// The key of the epoch is not the key of the hash.
pub proof fn lemma_start_is_not_hash(prefix: Seq<char>)
    ensures
        start_key_of(prefix) != hash_key_of(prefix),
{
    let start = KeyName::Start;
    let hash = KeyName::Hash;
    if key_of(prefix, start) == key_of(prefix, hash) {
        lemma_key_of_injective(prefix, start, prefix, hash);
    }
}

/// A sentinel is neither the key of the epoch nor the key of the hash, and
/// sentinels of distinct digests are distinct.
pub proof fn lemma_keys_apart(prefix: Seq<char>, d: Seq<char>, e: Seq<char>)
    requires
        is_digest(d),
        is_digest(e),
    ensures
        start_key_of(prefix) != sentinel_key_of(prefix, d),
        hash_key_of(prefix) != sentinel_key_of(prefix, d),
        d != e ==> sentinel_key_of(prefix, d) != sentinel_key_of(prefix, e),
{
    let start = KeyName::Start;
    let hash = KeyName::Hash;
    let of_d = KeyName::Sentinel(d);
    let of_e = KeyName::Sentinel(e);
    if key_of(prefix, start) == key_of(prefix, of_d) {
        lemma_key_of_injective(prefix, start, prefix, of_d);
    }
    if key_of(prefix, hash) == key_of(prefix, of_d) {
        lemma_key_of_injective(prefix, hash, prefix, of_d);
    }
    if key_of(prefix, of_d) == key_of(prefix, of_e) {
        lemma_key_of_injective(prefix, of_d, prefix, of_e);
    }
}

/// Once the atomic section of a replacement has gone through, the sentinel
/// and the cell hold the value that it wrote, both of them.
pub proof fn lemma_commit_writes_both(data: Keyspace, prefix: Seq<char>, d: Seq<char>, value: u64)
    requires
        is_digest(d),
        !data.scalars.contains_key(hash_key_of(prefix)),
    ensures
        data.effect(cell_commit(prefix, d, value)).get(sentinel_key_of(prefix, d)) == Some(value),
        data.effect(cell_commit(prefix, d, value)).hget(hash_key_of(prefix), d) == Some(value),
{
    lemma_keys_apart(prefix, d, d);
    reveal_with_fuel(Keyspace::write_all, 3);
}

/// The keyspace after the atomic section of a replacement, written out.
proof fn lemma_cell_commit_effect(data: Keyspace, prefix: Seq<char>, d: Seq<char>, value: u64)
    ensures
        data.effect(cell_commit(prefix, d, value)) == data.write(
            cell_commit(prefix, d, value)->Atomic_writes[0],
        ).write(cell_commit(prefix, d, value)->Atomic_writes[1]),
{
    reveal_with_fuel(Keyspace::write_all, 3);
}

/// The keyspace after the atomic section of an election, written out.
proof fn lemma_election_commit_effect(data: Keyspace, prefix: Seq<char>, candidate: u64)
    ensures
        data.effect(election_commit(prefix, candidate)) == data.write(
            election_commit(prefix, candidate)->Atomic_writes[0],
        ),
{
    reveal_with_fuel(Keyspace::write_all, 2);
}

/// Coherence holds of a store that holds nothing.
pub proof fn lemma_empty_is_coherent(prefix: Seq<char>)
    ensures
        coherent(Keyspace::empty(), prefix),
{
}

/// Coherence is kept by everything that the governor of the namespace does:
/// by its elections, by its replacements, whichever entry they are about,
/// and by its wipes.
pub proof fn lemma_coherence_kept(data: Keyspace, prefix: Seq<char>, request: RequestView)
    requires
        coherent(data, prefix),
        asked_under(prefix, request),
    ensures
        coherent(data.effect(request), prefix),
{
    let after = data.effect(request);
    let hash = hash_key_of(prefix);
    match request {
        RequestView::Del { key } => {
            assert forall|d: Seq<char>|
                is_digest(d) && after.hget(hash, d) is Some implies after.get(
                #[trigger] sentinel_key_of(prefix, d),
            ) == after.hget(hash, d) by {
                lemma_keys_apart(prefix, d, d);
            }
        },
        RequestView::Atomic { .. } => {
            if exists|candidate: u64| request == #[trigger] election_commit(prefix, candidate) {
                let candidate = choose|candidate: u64|
                    request == #[trigger] election_commit(prefix, candidate);
                lemma_election_commit_effect(data, prefix, candidate);
                assert forall|d: Seq<char>|
                    is_digest(d) && after.hget(hash, d) is Some implies after.get(
                    #[trigger] sentinel_key_of(prefix, d),
                ) == after.hget(hash, d) by {
                    lemma_keys_apart(prefix, d, d);
                }
                lemma_start_is_not_hash(prefix);
            } else {
                let (e, value) = choose|e: Seq<char>, value: u64|
                    is_digest(e) && request == #[trigger] cell_commit(prefix, e, value);
                lemma_cell_commit_effect(data, prefix, e, value);
                lemma_keys_apart(prefix, e, e);
                assert forall|d: Seq<char>|
                    is_digest(d) && after.hget(hash, d) is Some implies after.get(
                    #[trigger] sentinel_key_of(prefix, d),
                ) == after.hget(hash, d) by {
                    lemma_keys_apart(prefix, d, e);
                }
            }
        },
        _ => {},
    }
}

/// Whether some governor asks for `request`.
pub open spec fn asked(request: RequestView) -> bool {
    exists|prefix: Seq<char>| #[trigger] asked_under(prefix, request)
}

/// Hash and sentinel cohere at every point: a store that is coherent under
/// `prefix`, as an empty store is, stays so whatever requests of governors
/// are carried out on it, of the governor with this prefix or of others.
pub proof fn lemma_coherent_ever_after(data: Keyspace, prefix: Seq<char>, requests: Seq<RequestView>)
    requires
        coherent(data, prefix),
        forall|i: int| 0 <= i < requests.len() ==> asked(#[trigger] requests[i]),
    ensures
        coherent(data.effect_all(requests), prefix),
    decreases requests.len(),
{
    if requests.len() > 0 {
        let before = requests.drop_last();
        assert forall|i: int| 0 <= i < before.len() implies asked(#[trigger] before[i]) by {
            assert(before[i] == requests[i]);
        }
        lemma_coherent_ever_after(data, prefix, before);
        let request = requests.last();
        let other = choose|other: Seq<char>| #[trigger] asked_under(other, request);
        if other == prefix {
            lemma_coherence_kept(data.effect_all(before), prefix, request);
        } else {
            lemma_coherence_kept_by_others(data.effect_all(before), prefix, other, request);
        }
    }
}

/// Coherence under one prefix is kept by everything that a governor with
/// another prefix does.
pub proof fn lemma_coherence_kept_by_others(
    data: Keyspace,
    prefix: Seq<char>,
    other: Seq<char>,
    request: RequestView,
)
    requires
        coherent(data, prefix),
        other != prefix,
        asked_under(other, request),
    ensures
        coherent(data.effect(request), prefix),
{
    let after = data.effect(request);
    let hash = hash_key_of(prefix);
    lemma_own_keys_in_namespace(prefix, Seq::empty());
    lemma_no_write_across_namespaces(other, prefix, request, data, hash);
    assert forall|d: Seq<char>|
        is_digest(d) && after.hget(hash, d) is Some implies after.get(
        #[trigger] sentinel_key_of(prefix, d),
    ) == after.hget(hash, d) by {
        lemma_own_keys_in_namespace(prefix, d);
        lemma_no_write_across_namespaces(other, prefix, request, data, sentinel_key_of(prefix, d));
    }
}

} // verus!
