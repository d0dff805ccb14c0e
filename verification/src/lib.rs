//! Distributed state backend for a GCRA rate limiter kept in Redis.
//!
//! Many processes that enforce one quota share the limiter's state through a
//! store that offers optimistic concurrency only. This crate holds what is
//! decided on the way: how the keys of a governor are named ([`keys`],
//! [`digest`]), how the server's time becomes an instant and how the fleet
//! elects its epoch ([`clock`]), and how the cell of a rate-limit entry is
//! replaced by check-and-set ([`state`]), both on one loop ([`cas`]). Every
//! protocol is a state machine that asks for requests ([`protocol`]) to be
//! sent and is fed the replies; whoever owns the connection sends them and
//! runs the loop.
//!
//! What the protocols achieve is proved against a model of the store
//! ([`model`]): a governor stays within its namespace ([`isolation`]), a cell
//! and its sentinel hold the same ([`coherence`]), a wipe leaves the store as
//! good as new ([`wipe`]), the epoch is elected once ([`epoch`]), and under
//! contention no update is lost and every write is an accepted call
//! ([`contention`]).

pub mod cas;
pub mod clock;
pub mod coherence;
pub mod contention;
pub mod digest;
pub mod epoch;
pub mod isolation;
pub mod keys;
pub mod model;
pub mod protocol;
pub mod state;
pub mod wipe;

use crate::clock::RedisClock;
use crate::keys::{hash_key_of, start_key_of};
use crate::protocol::{Request, RequestView};
use crate::state::RedisStateStore;
use vstd::prelude::*;

verus! {

/// The state store and the clock of one governor, meant to be driven over
/// one connection.
pub struct GovernorInstance {
    state: RedisStateStore,
    clock: RedisClock,
}

impl GovernorInstance {
    #[verifier::type_invariant]
    spec fn well_formed(&self) -> bool {
        self.clock.key() == start_key_of(self.state.prefix())
    }

    /// The prefix that scopes every key of the instance.
    pub closed spec fn prefix(&self) -> Seq<char> {
        self.state.prefix()
    }

    /// The state store of the instance.
    pub fn state(&self) -> (state: &RedisStateStore)
        ensures
            state.prefix() == self.prefix(),
    {
        &self.state
    }

    /// The clock of the instance.
    pub fn clock(&self) -> (clock: &RedisClock)
        ensures
            clock.key() == start_key_of(self.prefix()),
    {
        proof {
            use_type_invariant(self);
        }
        &self.clock
    }

    /// The requests that wipe all of the governor's rate limits, in the order
    /// in which they are to be sent: the epoch is forgotten first, then the
    /// cells.
    pub fn wipe(&self) -> (requests: Vec<Request>)
        ensures
            requests@.len() == 2,
            requests@[0]@ == (RequestView::Del { key: start_key_of(self.prefix()) }),
            requests@[1]@ == (RequestView::Del { key: hash_key_of(self.prefix()) }),
    {
        let mut requests: Vec<Request> = Vec::new();
        requests.push(self.clock().reset_start());
        requests.push(self.state().wipe());
        requests
    }
}

/// A factory of [`GovernorInstance`]s that share a namespace in the store.
pub struct RedisGovernor {
    prefix: String,
}

impl Clone for RedisGovernor {
    fn clone(&self) -> (governor: Self)
        ensures
            governor == *self,
    {
        RedisGovernor { prefix: self.prefix.clone() }
    }
}

impl RedisGovernor {
    /// The prefix that scopes every key of the governor.
    pub closed spec fn prefix(&self) -> Seq<char> {
        self.prefix@
    }

    /// A governor whose keys all begin with `prefix`, so that independent
    /// users of one store do not collide.
    pub fn new(prefix: &str) -> (governor: RedisGovernor)
        ensures
            governor.prefix() == prefix@,
    {
        RedisGovernor { prefix: String::from_str(prefix) }
    }

    /// The state store and the clock for one more connection.
    pub fn instance(&self) -> (instance: GovernorInstance)
        ensures
            instance.prefix() == self.prefix(),
    {
        GovernorInstance {
            state: RedisStateStore::new(self.prefix.as_str()),
            clock: RedisClock::new(self.prefix.as_str()),
        }
    }

    /// The governor in one line: the name that the caller gives it, and the
    /// prefix.
    pub fn describe(&self, name: &str) -> (line: String)
        ensures
            line@ == name@ + " [prefix="@ + self.prefix() + "]"@,
    {
        String::from_str(name).concat(" [prefix=").concat(self.prefix.as_str()).concat("]")
    }
}

} // verus!
