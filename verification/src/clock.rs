//! The remote clock: instants counted in nanoseconds of the server's time,
//! and the election of the epoch that a whole fleet shares.

use crate::cas::{settle, watch, Round};
use crate::keys::{start_key, start_key_of};
use crate::protocol::{Fault, Reply, Request, RequestView, Write, WriteView};
use vstd::prelude::*;

verus! {

/// An instant in time as observed by the store, in nanoseconds.
#[derive(Clone, Copy, Debug, PartialEq, Eq, Structural, PartialOrd, Ord)]
pub struct RedisInstant {
    nanos: u64,
}

impl View for RedisInstant {
    type V = u64;

    closed spec fn view(&self) -> u64 {
        self.nanos
    }
}

impl RedisInstant {
    /// The instant that lies `nanos` nanoseconds after the server's zero.
    pub fn from_nanos(nanos: u64) -> (instant: RedisInstant)
        ensures
            instant@ == nanos,
    {
        RedisInstant { nanos }
    }

    /// Nanoseconds since the server's zero.
    pub fn as_nanos(&self) -> (nanos: u64)
        ensures
            nanos == self@,
    {
        self.nanos
    }

    /// The instant `nanos` nanoseconds later.
    pub fn add(self, nanos: u64) -> (later: RedisInstant)
        requires
            self@ + nanos <= u64::MAX,
        ensures
            later@ == self@ + nanos,
    {
        RedisInstant { nanos: self.nanos + nanos }
    }

    /// The nanoseconds that separate `self` from `earlier`; zero where
    /// `earlier` is in fact the later of the two.
    pub fn duration_since(&self, earlier: RedisInstant) -> (nanos: u64)
        ensures
            nanos == if self@ >= earlier@ {
                self@ - earlier@
            } else {
                0
            },
    {
        self.nanos.saturating_sub(earlier.nanos)
    }

    /// The instant `nanos` nanoseconds earlier, and the server's zero where
    /// that would lie before it.
    pub fn saturating_sub(&self, nanos: u64) -> (earlier: RedisInstant)
        ensures
            earlier@ == if self@ >= nanos {
                self@ - nanos
            } else {
                0
            },
    {
        RedisInstant { nanos: self.nanos.saturating_sub(nanos) }
    }
}

/// The nanoseconds in a reading of whole seconds and microseconds.
pub open spec fn nanos_of(secs: u64, micros: u64) -> int {
    secs * 1_000_000_000 + micros * 1_000
}

/// Nanoseconds of a server time, where they fit 64 bits.
pub fn now_nanos(secs: u64, micros: u64) -> (nanos: Option<u64>)
    ensures
        nanos_of(secs, micros) <= u64::MAX ==> nanos == Some(nanos_of(secs, micros) as u64),
        nanos_of(secs, micros) > u64::MAX ==> nanos is None,
{
    let whole = match secs.checked_mul(1_000_000_000) {
        Some(whole) => whole,
        None => {
            return None;
        },
    };
    let part = match micros.checked_mul(1_000) {
        Some(part) => part,
        None => {
            return None;
        },
    };
    whole.checked_add(part)
}

/// Whether the reading `(secs, micros)` of the server's time is not later than
/// `(later_secs, later_micros)`.
pub open spec fn not_later(secs: u64, micros: u64, later_secs: u64, later_micros: u64) -> bool {
    secs < later_secs || (secs == later_secs && micros <= later_micros)
}

/// The nanoseconds of a reading grow with the reading: of two readings of
/// the server's time with less than a second's worth of microseconds, the
/// one that is not later gives no more nanoseconds.
pub proof fn lemma_nanos_monotonic(secs: u64, micros: u64, later_secs: u64, later_micros: u64)
    requires
        micros < 1_000_000,
        not_later(secs, micros, later_secs, later_micros),
    ensures
        nanos_of(secs, micros) <= nanos_of(later_secs, later_micros),
{
    if secs < later_secs {
        assert(secs * 1_000_000_000 + 1_000_000_000 <= later_secs * 1_000_000_000) by (nonlinear_arith)
            requires
                secs < later_secs,
        ;
    }
}

/// Where an election stands.
#[derive(Clone, Copy, Debug, PartialEq, Eq, Structural)]
pub enum ElectionStage {
    /// The epoch's key is being watched.
    Watching,
    /// The epoch's key is being read.
    Reading,
    /// No epoch was found; the server is asked for its time.
    Timing,
    /// The candidate is being written, provided the key has not changed.
    Committing(u64),
    /// The epoch is known.
    Elected(u64),
    /// The election was given up.
    Failed(Fault),
}

impl ElectionStage {
    /// The stage that follows when `reply` comes in.
    pub open spec fn after(self, reply: Reply) -> ElectionStage {
        match (self, reply) {
            (ElectionStage::Watching, Reply::Done) => ElectionStage::Reading,
            (ElectionStage::Reading, Reply::Value(Some(epoch))) => ElectionStage::Elected(epoch),
            (ElectionStage::Reading, Reply::Value(None)) => ElectionStage::Timing,
            (ElectionStage::Timing, Reply::Time { secs, micros }) => {
                if nanos_of(secs, micros) <= u64::MAX {
                    ElectionStage::Committing(nanos_of(secs, micros) as u64)
                } else {
                    ElectionStage::Failed(Fault::TimeOutOfRange)
                }
            },
            (ElectionStage::Committing(_), Reply::Aborted) => ElectionStage::Watching,
            (ElectionStage::Committing(_), Reply::Committed(Some(epoch))) => ElectionStage::Elected(
                epoch,
            ),
            (ElectionStage::Elected(epoch), _) => ElectionStage::Elected(epoch),
            (ElectionStage::Failed(fault), _) => ElectionStage::Failed(fault),
            _ => ElectionStage::Failed(Fault::UnexpectedEvent),
        }
    }

    /// Whether the election has come to an end.
    pub open spec fn finished(self) -> bool {
        self is Elected || self is Failed
    }
}

/// What an election asks of whoever drives it.
#[derive(Debug, PartialEq, Eq)]
pub enum ElectionStep {
    /// Send the request and hand the reply to [`Election::step`].
    Send(Request),
    /// The election is over: this is the fleet's epoch.
    Elected(RedisInstant),
    /// The election is over: the store did not keep to the protocol.
    Failed(Fault),
}

/// An [`ElectionStep`] with its request and instant as plain values.
pub enum ElectionStepView {
    Send(RequestView),
    Elected(u64),
    Failed(Fault),
}

impl View for ElectionStep {
    type V = ElectionStepView;

    open spec fn view(&self) -> ElectionStepView {
        match *self {
            ElectionStep::Send(request) => ElectionStepView::Send(request@),
            ElectionStep::Elected(instant) => ElectionStepView::Elected(instant@),
            ElectionStep::Failed(fault) => ElectionStepView::Failed(fault),
        }
    }
}

/// An election of the epoch in flight: check-and-set on `{prefix}:start`.
pub struct Election {
    start_key: String,
    stage: ElectionStage,
}

/// The key that an election is about, and its stage.
pub struct ElectionView {
    pub start_key: Seq<char>,
    pub stage: ElectionStage,
}

impl ElectionView {
    /// What the election asks for while it is in this stage.
    pub open spec fn pending(self) -> ElectionStepView {
        match self.stage {
            ElectionStage::Watching => ElectionStepView::Send(
                RequestView::Watch { key: self.start_key },
            ),
            ElectionStage::Reading => ElectionStepView::Send(
                RequestView::Get { key: self.start_key },
            ),
            ElectionStage::Timing => ElectionStepView::Send(RequestView::Time),
            ElectionStage::Committing(candidate) => ElectionStepView::Send(
                RequestView::Atomic {
                    writes: seq![WriteView::SetScalar { key: self.start_key, value: candidate }],
                    read: Some(self.start_key),
                },
            ),
            ElectionStage::Elected(epoch) => ElectionStepView::Elected(epoch),
            ElectionStage::Failed(fault) => ElectionStepView::Failed(fault),
        }
    }

    /// The election after `reply` has come in.
    pub open spec fn after(self, reply: Reply) -> ElectionView {
        ElectionView { start_key: self.start_key, stage: self.stage.after(reply) }
    }
}

impl View for Election {
    type V = ElectionView;

    closed spec fn view(&self) -> ElectionView {
        ElectionView { start_key: self.start_key@, stage: self.stage }
    }
}

impl Election {
    /// What the election is waiting for.
    pub fn pending(&self) -> (step: ElectionStep)
        ensures
            step@ == self@.pending(),
    {
        match self.stage {
            ElectionStage::Watching => ElectionStep::Send(watch(&self.start_key)),
            ElectionStage::Reading => ElectionStep::Send(
                Request::Get { key: self.start_key.clone() },
            ),
            ElectionStage::Timing => ElectionStep::Send(Request::Time),
            ElectionStage::Committing(candidate) => {
                let mut writes: Vec<Write> = Vec::new();
                writes.push(Write::SetScalar { key: self.start_key.clone(), value: candidate });
                let request = Request::Atomic { writes, read: Some(self.start_key.clone()) };
                assert(request@ == self@.pending()->Send_0) by {
                    assert(writes@.map_values(|w: Write| w@) =~= seq![
                        WriteView::SetScalar { key: self.start_key@, value: candidate },
                    ]);
                }
                ElectionStep::Send(request)
            },
            ElectionStage::Elected(epoch) => ElectionStep::Elected(RedisInstant::from_nanos(epoch)),
            ElectionStage::Failed(fault) => ElectionStep::Failed(fault),
        }
    }

    /// Takes in the reply to the request that was pending and says what to
    /// do next. A reply that does not answer that request ends the election
    /// with a fault; an election that is over stays as it is.
    pub fn step(&mut self, reply: Reply) -> (step: ElectionStep)
        ensures
            final(self)@ == old(self)@.after(reply),
            step@ == final(self)@.pending(),
    {
        let next = match (self.stage, reply) {
            (ElectionStage::Watching, Reply::Done) => ElectionStage::Reading,
            (ElectionStage::Reading, Reply::Value(Some(epoch))) => ElectionStage::Elected(epoch),
            (ElectionStage::Reading, Reply::Value(None)) => ElectionStage::Timing,
            (ElectionStage::Timing, Reply::Time { secs, micros }) => match now_nanos(secs, micros) {
                Some(candidate) => ElectionStage::Committing(candidate),
                None => ElectionStage::Failed(Fault::TimeOutOfRange),
            },
            (ElectionStage::Committing(_), reply) => match settle(reply) {
                Some(Round::Retry) => ElectionStage::Watching,
                Some(Round::Through(Some(epoch))) => ElectionStage::Elected(epoch),
                _ => ElectionStage::Failed(Fault::UnexpectedEvent),
            },
            (ElectionStage::Elected(epoch), _) => ElectionStage::Elected(epoch),
            (ElectionStage::Failed(fault), _) => ElectionStage::Failed(fault),
            _ => ElectionStage::Failed(Fault::UnexpectedEvent),
        };
        self.stage = next;
        self.pending()
    }
}

/// Clock source that uses the store as a limiter's time base.
pub struct RedisClock {
    start_key: String,
}

impl Clone for RedisClock {
    fn clone(&self) -> (clock: Self)
        ensures
            clock == *self,
    {
        RedisClock { start_key: self.start_key.clone() }
    }
}

impl RedisClock {
    /// The key under which the fleet's epoch is kept.
    pub closed spec fn key(&self) -> Seq<char> {
        self.start_key@
    }

    /// The clock of the governor with this prefix.
    pub fn new(prefix: &str) -> (clock: RedisClock)
        ensures
            clock.key() == start_key_of(prefix@),
    {
        RedisClock { start_key: start_key(prefix) }
    }

    /// The instant that a reading of the server's time stands for, where it
    /// fits 64 bits of nanoseconds.
    pub fn now(&self, secs: u64, micros: u64) -> (instant: Option<RedisInstant>)
        ensures
            nanos_of(secs, micros) <= u64::MAX ==> instant is Some && instant->0@ == nanos_of(
                secs,
                micros,
            ),
            nanos_of(secs, micros) > u64::MAX ==> instant is None,
    {
        match now_nanos(secs, micros) {
            Some(nanos) => Some(RedisInstant::from_nanos(nanos)),
            None => None,
        }
    }

    /// Begins an election of the fleet's epoch.
    pub fn start(&self) -> (election: Election)
        ensures
            election@ == (ElectionView { start_key: self.key(), stage: ElectionStage::Watching }),
    {
        Election { start_key: self.start_key.clone(), stage: ElectionStage::Watching }
    }

    /// The request that forgets the epoch, so that the next election floats
    /// a new one.
    pub fn reset_start(&self) -> (request: Request)
        ensures
            request@ == (RequestView::Del { key: self.key() }),
    {
        Request::Del { key: self.start_key.clone() }
    }
}

} // verus!
