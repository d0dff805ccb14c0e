//! The vocabulary between the protocols and the connection that serves them:
//! the requests a protocol asks to have sent, and the replies it is fed.

use vstd::prelude::*;

verus! {

/// A write that is queued inside an atomic section.
#[derive(Debug, PartialEq, Eq)]
pub enum Write {
    /// `SET key value`
    SetScalar { key: String, value: u64 },
    /// `HSET key field value`
    SetField { key: String, field: String, value: u64 },
}

/// A [`Write`] with its strings as sequences of characters.
pub enum WriteView {
    SetScalar { key: Seq<char>, value: u64 },
    SetField { key: Seq<char>, field: Seq<char>, value: u64 },
}

impl View for Write {
    type V = WriteView;

    open spec fn view(&self) -> WriteView {
        match *self {
            Write::SetScalar { key, value } => WriteView::SetScalar { key: key@, value },
            Write::SetField { key, field, value } => WriteView::SetField { key: key@, field: field@, value },
        }
    }
}

/// One round trip to the store.
#[derive(Debug, PartialEq, Eq)]
pub enum Request {
    /// `TIME`
    Time,
    /// `WATCH key`
    Watch { key: String },
    /// `GET key`
    Get { key: String },
    /// `HGET key field`
    HGet { key: String, field: String },
    /// `DEL key`
    Del { key: String },
    /// `MULTI`, the writes in order, a `GET` of `read` if there is one, `EXEC`.
    Atomic { writes: Vec<Write>, read: Option<String> },
}

/// A [`Request`] with its strings as sequences of characters.
pub enum RequestView {
    Time,
    Watch { key: Seq<char> },
    Get { key: Seq<char> },
    HGet { key: Seq<char>, field: Seq<char> },
    Del { key: Seq<char> },
    Atomic { writes: Seq<WriteView>, read: Option<Seq<char>> },
}

impl View for Request {
    type V = RequestView;

    open spec fn view(&self) -> RequestView {
        match *self {
            Request::Time => RequestView::Time,
            Request::Watch { key } => RequestView::Watch { key: key@ },
            Request::Get { key } => RequestView::Get { key: key@ },
            Request::HGet { key, field } => RequestView::HGet { key: key@, field: field@ },
            Request::Del { key } => RequestView::Del { key: key@ },
            Request::Atomic { writes, read } => RequestView::Atomic {
                writes: writes@.map_values(|w: Write| w@),
                read: match read {
                    Some(key) => Some(key@),
                    None => None,
                },
            },
        }
    }
}

/// What the store answered.
#[derive(Clone, Copy, Debug, PartialEq, Eq, Structural)]
pub enum Reply {
    /// The request was carried out and has nothing to report.
    Done,
    /// The server's clock: whole seconds, and microseconds into the second.
    Time { secs: u64, micros: u64 },
    /// The integer at the key or field that was read, if there is one.
    Value(Option<u64>),
    /// `EXEC` answered nil: a watched key changed, nothing was written.
    Aborted,
    /// `EXEC` went through; the value that the section's `GET` read, if it
    /// had one.
    Committed(Option<u64>),
}

/// Why a protocol gave up.
#[derive(Clone, Copy, Debug, PartialEq, Eq, Structural)]
pub enum Fault {
    /// The event does not answer what the protocol last asked for.
    UnexpectedEvent,
    /// The server's time does not fit 64 bits of nanoseconds.
    TimeOutOfRange,
}

impl WriteView {
    /// The key that the write changes.
    pub open spec fn key(self) -> Seq<char> {
        match self {
            WriteView::SetScalar { key, .. } => key,
            WriteView::SetField { key, .. } => key,
        }
    }
}

impl RequestView {
    /// The keys that the request reads, watches or changes.
    pub open spec fn keys(self) -> Set<Seq<char>> {
        match self {
            RequestView::Time => Set::empty(),
            RequestView::Watch { key } => set![key],
            RequestView::Get { key } => set![key],
            RequestView::HGet { key, .. } => set![key],
            RequestView::Del { key } => set![key],
            RequestView::Atomic { writes, read } => Set::new(
                |k: Seq<char>|
                    read == Some(k) || exists|i: int|
                        0 <= i < writes.len() && k == (#[trigger] writes[i]).key(),
            ),
        }
    }
}

} // verus!
