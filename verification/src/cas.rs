//! The check-and-set loop that both protocols are built on: watch a key,
//! read, and write in an atomic section that goes through only if the key
//! was left alone since the watch; where it was not, begin again.

use crate::protocol::{Reply, Request, RequestView};
use vstd::prelude::*;

verus! {

/// How a round of the loop ended.
#[derive(Clone, Copy, Debug, PartialEq, Eq, Structural)]
pub enum Round {
    /// The watched key changed and nothing was written: begin again at the
    /// watch.
    Retry,
    /// The atomic section went through; the value that it read back, if it
    /// read one.
    Through(Option<u64>),
}

/// What the reply to an atomic section says of the round, where it is a
/// reply to an atomic section at all.
pub open spec fn settled(reply: Reply) -> Option<Round> {
    match reply {
        Reply::Aborted => Some(Round::Retry),
        Reply::Committed(read) => Some(Round::Through(read)),
        _ => None,
    }
}

/// The head of the loop: the request that watches `key`. A watch ends with
/// the atomic section, gone through or not, so every round begins here.
pub fn watch(key: &String) -> (request: Request)
    ensures
        request@ == (RequestView::Watch { key: key@ }),
{
    Request::Watch { key: key.clone() }
}

/// Reads the reply to the atomic section that closes a round.
pub fn settle(reply: Reply) -> (round: Option<Round>)
    ensures
        round == settled(reply),
{
    match reply {
        Reply::Aborted => Some(Round::Retry),
        Reply::Committed(read) => Some(Round::Through(read)),
        _ => None,
    }
}

} // verus!
