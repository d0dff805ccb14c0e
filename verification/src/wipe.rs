//! Wiping a governor: the epoch and every cell are forgotten, and the store
//! then looks to the governor as a store that was never used.

use crate::isolation::asked_under;
use crate::keys::{hash_key_of, start_key_of};
use crate::model::Keyspace;
use crate::protocol::{Reply, RequestView};
use vstd::prelude::*;

verus! {

/// The keyspace after the two requests of a wipe under `prefix`.
pub open spec fn wiped(data: Keyspace, prefix: Seq<char>) -> Keyspace {
    data.effect(RequestView::Del { key: start_key_of(prefix) }).effect(
        RequestView::Del { key: hash_key_of(prefix) },
    )
}

/// Whether two keyspaces look the same to the governor with this prefix:
/// they hold the same epoch and the same cells. What the sentinels hold is
/// not compared, for no request reads it.
pub open spec fn alike(a: Keyspace, b: Keyspace, prefix: Seq<char>) -> bool {
    &&& a.get(start_key_of(prefix)) == b.get(start_key_of(prefix))
    &&& a.scalars.contains_key(hash_key_of(prefix)) == b.scalars.contains_key(hash_key_of(prefix))
    &&& forall|field: Seq<char>| #[trigger]
        a.hget(hash_key_of(prefix), field) == b.hget(hash_key_of(prefix), field)
}

/// A second wipe changes nothing.
pub proof fn lemma_wipe_idempotent(data: Keyspace, prefix: Seq<char>)
    ensures
        wiped(wiped(data, prefix), prefix) == wiped(data, prefix),
{
    let once = wiped(data, prefix);
    let twice = wiped(once, prefix);
    assert(twice.scalars =~= once.scalars);
    assert(twice.hashes =~= once.hashes);
}

/// After a wipe the store holds neither an epoch nor a cell: it looks to the
/// governor as the empty store does.
pub proof fn lemma_wiped_is_fresh(data: Keyspace, prefix: Seq<char>)
    ensures
        wiped(data, prefix).get(start_key_of(prefix)) is None,
        forall|field: Seq<char>| wiped(data, prefix).hget(hash_key_of(prefix), field) is None,
        alike(wiped(data, prefix), Keyspace::empty(), prefix),
{
}

/// Two stores that look alike to a governor answer each of its requests
/// alike.
pub proof fn lemma_alike_answers(
    a: Keyspace,
    b: Keyspace,
    prefix: Seq<char>,
    request: RequestView,
    reply: Reply,
)
    requires
        alike(a, b, prefix),
        asked_under(prefix, request),
    ensures
        a.answers(request, reply) == b.answers(request, reply),
{
    if request is Atomic {
        // Only an election's section reads back, and it reads what it wrote.
        reveal_with_fuel(Keyspace::write_all, 3);
    }
}

/// Two stores that look alike to a governor still do so after the same
/// request of that governor has been carried out on both. So whatever the
/// governor does after a wipe goes as it would on a store that was never
/// used.
pub proof fn lemma_alike_kept(a: Keyspace, b: Keyspace, prefix: Seq<char>, request: RequestView)
    requires
        alike(a, b, prefix),
        asked_under(prefix, request),
    ensures
        alike(a.effect(request), b.effect(request), prefix),
{
    let hash = hash_key_of(prefix);
    if request is Atomic {
        reveal_with_fuel(Keyspace::write_all, 3);
    }
    assert forall|field: Seq<char>| #[trigger]
        a.effect(request).hget(hash, field) == b.effect(request).hget(hash, field) by {
        assert(a.hget(hash, field) == b.hget(hash, field));
    }
}

/// Idempotence of the wipe, in full: after a wipe, and as well after two,
/// the store looks to the governor as an empty store does, and goes on
/// doing so whatever the governor then asks of both.
pub proof fn lemma_wiped_behaves_as_fresh(data: Keyspace, prefix: Seq<char>, requests: Seq<RequestView>)
    requires
        forall|i: int| 0 <= i < requests.len() ==> asked_under(prefix, #[trigger] requests[i]),
    ensures
        alike(
            wiped(data, prefix).effect_all(requests),
            Keyspace::empty().effect_all(requests),
            prefix,
        ),
    decreases requests.len(),
{
    if requests.len() == 0 {
        lemma_wiped_is_fresh(data, prefix);
    } else {
        let before = requests.drop_last();
        assert forall|i: int| 0 <= i < before.len() implies asked_under(
            prefix,
            #[trigger] before[i],
        ) by {
            assert(before[i] == requests[i]);
        }
        lemma_wiped_behaves_as_fresh(data, prefix, before);
        lemma_alike_kept(
            wiped(data, prefix).effect_all(before),
            Keyspace::empty().effect_all(before),
            prefix,
            requests.last(),
        );
    }
}

} // verus!
