//! The remote state store: one cell of 64 bits per rate-limit entry, replaced
//! by check-and-set on a sentinel key that stands beside the entry's field
//! in the shared hash.

use crate::cas::{settle, watch, Round};
use crate::digest::{digest_of, key_digest};
use crate::keys::{hash_key, hash_key_of, sentinel_key, sentinel_key_of};
use crate::protocol::{Fault, Reply, Request, RequestView, Write, WriteView};
use vstd::prelude::*;

verus! {

/// Where the replacement of a cell stands.
pub enum Stage<T> {
    /// The entry's sentinel is being watched.
    Watching,
    /// The entry's field in the hash is being read.
    Reading,
    /// The decision function is being asked, given what was read.
    Deciding(Option<u64>),
    /// The decision was to accept with this outcome; the new value is being
    /// written, provided the sentinel has not changed.
    Committing(T, u64),
    /// The replacement has come to an end.
    Finished,
}

/// What a replacement is fed.
pub enum Event<T, E> {
    /// The store's reply to the request that was sent.
    Reply(Reply),
    /// The decision function accepted: its outcome and the cell's new value.
    Accept(T, u64),
    /// The decision function rejected.
    Reject(E),
}

/// What a replacement asks of whoever drives it.
pub enum Step<T, E> {
    /// Send the request and feed the reply back.
    Send(Request),
    /// Call the decision function on the cell's current value and feed its
    /// answer back.
    Decide(Option<u64>),
    /// The replacement is over, with this result.
    Done(Result<T, E>),
    /// The replacement is over: it was not driven by the protocol.
    Failed(Fault),
}

/// A [`Step`] with its request as plain values.
pub enum StepView<T, E> {
    Send(RequestView),
    Decide(Option<u64>),
    Done(Result<T, E>),
    Failed(Fault),
}

impl<T, E> View for Step<T, E> {
    type V = StepView<T, E>;

    open spec fn view(&self) -> StepView<T, E> {
        match *self {
            Step::Send(request) => StepView::Send(request@),
            Step::Decide(prev) => StepView::Decide(prev),
            Step::Done(result) => StepView::Done(result),
            Step::Failed(fault) => StepView::Failed(fault),
        }
    }
}

/// The replacement of one entry's cell in flight.
pub struct Replacement<T> {
    sentinel: String,
    hash_key: String,
    field: String,
    stage: Stage<T>,
}

/// The keys that a replacement works on, and its stage.
pub struct ReplacementView<T> {
    /// The scalar that is watched.
    pub sentinel: Seq<char>,
    /// The hash that holds the cell.
    pub hash_key: Seq<char>,
    /// The cell's field in the hash: the digest of the entry's key.
    pub field: Seq<char>,
    pub stage: Stage<T>,
}

impl<T> ReplacementView<T> {
    /// The atomic section that writes `value` to the sentinel and to the
    /// cell.
    pub open spec fn commit(self, value: u64) -> RequestView {
        RequestView::Atomic {
            writes: seq![
                WriteView::SetScalar { key: self.sentinel, value },
                WriteView::SetField { key: self.hash_key, field: self.field, value },
            ],
            read: None,
        }
    }

    /// The request that the replacement waits to have answered, where it
    /// waits for one.
    pub open spec fn asks(self) -> Option<RequestView> {
        match self.stage {
            Stage::Watching => Some(RequestView::Watch { key: self.sentinel }),
            Stage::Reading => Some(RequestView::HGet { key: self.hash_key, field: self.field }),
            Stage::Committing(_, value) => Some(self.commit(value)),
            _ => None,
        }
    }

    /// The stage that follows when `event` comes in.
    pub open spec fn next_stage<E>(self, event: Event<T, E>) -> Stage<T> {
        match (self.stage, event) {
            (Stage::Watching, Event::Reply(Reply::Done)) => Stage::Reading,
            (Stage::Reading, Event::Reply(Reply::Value(prev))) => Stage::Deciding(prev),
            (Stage::Deciding(_), Event::Accept(outcome, value)) => Stage::Committing(
                outcome,
                value,
            ),
            (Stage::Committing(_, _), Event::Reply(Reply::Aborted)) => Stage::Watching,
            _ => Stage::Finished,
        }
    }

    /// The replacement after `event` has come in.
    pub open spec fn after<E>(self, event: Event<T, E>) -> ReplacementView<T> {
        ReplacementView {
            sentinel: self.sentinel,
            hash_key: self.hash_key,
            field: self.field,
            stage: self.next_stage(event),
        }
    }

    /// What the replacement asks for when `event` comes in.
    pub open spec fn emits<E>(self, event: Event<T, E>) -> StepView<T, E> {
        match (self.stage, event) {
            (Stage::Watching, Event::Reply(Reply::Done)) => StepView::Send(
                RequestView::HGet { key: self.hash_key, field: self.field },
            ),
            (Stage::Reading, Event::Reply(Reply::Value(prev))) => StepView::Decide(prev),
            (Stage::Deciding(_), Event::Accept(_, value)) => StepView::Send(self.commit(value)),
            (Stage::Deciding(_), Event::Reject(error)) => StepView::Done(Err(error)),
            (Stage::Committing(_, _), Event::Reply(Reply::Aborted)) => StepView::Send(
                RequestView::Watch { key: self.sentinel },
            ),
            (Stage::Committing(outcome, _), Event::Reply(Reply::Committed(_))) => StepView::Done(
                Ok(outcome),
            ),
            _ => StepView::Failed(Fault::UnexpectedEvent),
        }
    }
}

/// What a replacement asks to have sent is what it then waits to have
/// answered, and it waits for nothing that it has not asked for.
pub proof fn lemma_asks_what_it_sent<T, E>(replacement: ReplacementView<T>, event: Event<T, E>)
    ensures
        replacement.emits(event) is Send <==> replacement.after(event).asks() is Some,
        replacement.emits(event) is Send ==> replacement.after(event).asks() == Some(
            replacement.emits(event)->Send_0,
        ),
{
}

impl<T> ReplacementView<T> {
    /// The replacement after the events of a run have come in, in order.
    pub open spec fn after_all<E>(self, run: Seq<Event<T, E>>) -> ReplacementView<T>
        decreases run.len(),
    {
        if run.len() == 0 {
            self
        } else {
            self.after_all(run.drop_last()).after(run.last())
        }
    }

    /// What the replacement asked for when the last event of a run that is
    /// not empty came in.
    pub open spec fn last_step<E>(self, run: Seq<Event<T, E>>) -> StepView<T, E> {
        self.after_all(run.drop_last()).emits(run.last())
    }

    /// How many atomic sections of the replacement went through in the run:
    /// how often the store answered one of them with a commit.
    pub open spec fn commits<E>(self, run: Seq<Event<T, E>>) -> nat
        decreases run.len(),
    {
        if run.len() == 0 {
            0
        } else {
            let before = self.after_all(run.drop_last());
            let now: nat = if before.stage is Committing && (run.last() matches Event::Reply(
                Reply::Committed(_),
            )) {
                1
            } else {
                0
            };
            self.commits(run.drop_last()) + now
        }
    }

    /// How many outcomes the replacement handed out as accepted in the run.
    pub open spec fn accepts<E>(self, run: Seq<Event<T, E>>) -> nat
        decreases run.len(),
    {
        if run.len() == 0 {
            0
        } else {
            let now: nat = if self.last_step(run) matches StepView::Done(Ok(_)) {
                1
            } else {
                0
            };
            self.accepts(run.drop_last()) + now
        }
    }

    /// How many errors of the decision function the replacement handed out
    /// in the run.
    pub open spec fn rejects<E>(self, run: Seq<Event<T, E>>) -> nat
        decreases run.len(),
    {
        if run.len() == 0 {
            0
        } else {
            let now: nat = if self.last_step(run) matches StepView::Done(Err(_)) {
                1
            } else {
                0
            };
            self.rejects(run.drop_last()) + now
        }
    }
}

/// One replacement hands out at most one outcome, and it writes the cell
/// exactly if that outcome is an acceptance: however it is driven, at most
/// one of its atomic sections goes through, as many as it hands out accepted
/// outcomes, and none if it hands out a rejection. Once an outcome is out,
/// the replacement has ended.
pub proof fn lemma_one_outcome_per_run<T, E>(replacement: ReplacementView<T>, run: Seq<Event<T, E>>)
    ensures
        replacement.commits(run) == replacement.accepts(run),
        replacement.accepts(run) + replacement.rejects(run) <= 1,
        replacement.accepts(run) + replacement.rejects(run) == 1 ==> replacement.after_all(
            run,
        ).stage is Finished,
    decreases run.len(),
{
    if run.len() > 0 {
        lemma_one_outcome_per_run(replacement, run.drop_last());
    }
}

/// A replacement that has ended stays so and asks for nothing more.
pub proof fn lemma_finished_is_final<T, E>(replacement: ReplacementView<T>, event: Event<T, E>)
    requires
        replacement.stage is Finished,
    ensures
        replacement.after(event).stage is Finished,
        replacement.emits(event) is Failed,
        replacement.asks() is None,
{
}

impl<T> View for Replacement<T> {
    type V = ReplacementView<T>;

    closed spec fn view(&self) -> ReplacementView<T> {
        ReplacementView {
            sentinel: self.sentinel@,
            hash_key: self.hash_key@,
            field: self.field@,
            stage: self.stage,
        }
    }
}

impl<T> Replacement<T> {
    /// The atomic section that writes `value` to the sentinel and to the
    /// cell.
    fn commit(&self, value: u64) -> (request: Request)
        ensures
            request@ == self@.commit(value),
    {
        let mut writes: Vec<Write> = Vec::new();
        writes.push(Write::SetScalar { key: self.sentinel.clone(), value });
        writes.push(
            Write::SetField { key: self.hash_key.clone(), field: self.field.clone(), value },
        );
        assert(writes@.map_values(|w: Write| w@) =~= seq![
            WriteView::SetScalar { key: self.sentinel@, value },
            WriteView::SetField { key: self.hash_key@, field: self.field@, value },
        ]);
        Request::Atomic { writes, read: None }
    }

    /// Takes in the answer to what was last asked for and says what to do
    /// next.
    ///
    /// The cell's value goes to the decision function. Where it accepts, its
    /// new value is written to the sentinel and to the cell in one atomic
    /// section, and the outcome is handed out once that section has gone
    /// through; where the section was aborted, the outcome is dropped and
    /// the round begins again at the watch. Where it rejects, the error is
    /// handed out at once and nothing is written. An event that does not
    /// answer what was asked for ends the replacement with a fault, and so
    /// does any event after the end.
    pub fn step<E>(&mut self, event: Event<T, E>) -> (step: Step<T, E>)
        ensures
            final(self)@ == old(self)@.after(event),
            step@ == old(self)@.emits(event),
    {
        let mut stage = Stage::Finished;
        core::mem::swap(&mut self.stage, &mut stage);
        match (stage, event) {
            (Stage::Watching, Event::Reply(Reply::Done)) => {
                self.stage = Stage::Reading;
                Step::Send(Request::HGet { key: self.hash_key.clone(), field: self.field.clone() })
            },
            (Stage::Reading, Event::Reply(Reply::Value(prev))) => {
                self.stage = Stage::Deciding(prev);
                Step::Decide(prev)
            },
            (Stage::Deciding(_), Event::Accept(outcome, value)) => {
                self.stage = Stage::Committing(outcome, value);
                Step::Send(self.commit(value))
            },
            (Stage::Deciding(_), Event::Reject(error)) => Step::Done(Err(error)),
            (Stage::Committing(outcome, _), Event::Reply(reply)) => match settle(reply) {
                Some(Round::Retry) => {
                    self.stage = Stage::Watching;
                    Step::Send(watch(&self.sentinel))
                },
                Some(Round::Through(_)) => Step::Done(Ok(outcome)),
                None => Step::Failed(Fault::UnexpectedEvent),
            },
            _ => Step::Failed(Fault::UnexpectedEvent),
        }
    }
}

/// Governor state store backed by the store's hash `{prefix}:governor:hash`.
pub struct RedisStateStore {
    prefix: String,
    hash_key: String,
}

impl Clone for RedisStateStore {
    fn clone(&self) -> (store: Self)
        ensures
            store == *self,
    {
        proof {
            use_type_invariant(self);
        }
        RedisStateStore { prefix: self.prefix.clone(), hash_key: self.hash_key.clone() }
    }
}

impl RedisStateStore {
    #[verifier::type_invariant]
    spec fn well_formed(&self) -> bool {
        self.hash_key@ == hash_key_of(self.prefix@)
    }

    /// The prefix that scopes every key of the store.
    pub closed spec fn prefix(&self) -> Seq<char> {
        self.prefix@
    }

    /// The state store of the governor with this prefix.
    pub fn new(prefix: &str) -> (store: RedisStateStore)
        ensures
            store.prefix() == prefix@,
    {
        RedisStateStore { prefix: String::from_str(prefix), hash_key: hash_key(prefix) }
    }

    /// The request that forgets every cell. The sentinels stay: nothing reads
    /// them, and the next replacement of an entry writes its own anew.
    pub fn wipe(&self) -> (request: Request)
        ensures
            request@ == (RequestView::Del { key: hash_key_of(self.prefix()) }),
    {
        proof {
            use_type_invariant(self);
        }
        Request::Del { key: self.hash_key.clone() }
    }

    /// The digest that names the entry of a user key in the store. The key
    /// is given by the bytes that it feeds to a hasher.
    pub fn key_hash(&self, key: &[u8]) -> (digest: String)
        ensures
            digest@ == digest_of(key@),
    {
        key_digest(key)
    }

    /// Begins the replacement of the cell of the entry with this key, and
    /// gives the request that opens it: the watch on the entry's sentinel.
    pub fn measure_and_replace<T>(&self, key: &[u8]) -> (begun: (Replacement<T>, Request))
        ensures
            begun.0@ == (ReplacementView::<T> {
                sentinel: sentinel_key_of(self.prefix(), digest_of(key@)),
                hash_key: hash_key_of(self.prefix()),
                field: digest_of(key@),
                stage: Stage::Watching,
            }),
            begun.0@.asks() == Some(begun.1@),
    {
        proof {
            use_type_invariant(self);
        }
        let field = self.key_hash(key);
        let sentinel = sentinel_key(self.prefix.as_str(), field.as_str());
        let request = watch(&sentinel);
        (
            Replacement { sentinel, hash_key: self.hash_key.clone(), field, stage: Stage::Watching },
            request,
        )
    }
}

} // verus!
