use governor::clock::{Clock, Reference};
use governor::middleware::NoOpMiddleware;
use governor::nanos::Nanos;
use governor::state::StateStore;
use governor::{Quota, RateLimiter};
use redis_governor::clock::{ElectionStep, RedisClock, RedisInstant};
use redis_governor::protocol::{Reply, Request, Write};
use redis_governor::state::{Event, RedisStateStore, Step};
use redis_governor::{GovernorInstance, RedisGovernor};
use std::cell::{Cell, RefCell};
use std::collections::{HashMap, HashSet};
use std::fmt::Debug;
use std::hash::{Hash, Hasher};
use std::marker::PhantomData;
use std::num::NonZeroU32;
use std::ops::Add;
use std::rc::Rc;
use std::time::Duration;

fn copy_write(write: &Write) -> Write {
    match write {
        Write::SetScalar { key, value } => Write::SetScalar { key: key.clone(), value: *value },
        Write::SetField { key, field, value } => {
            Write::SetField { key: key.clone(), field: field.clone(), value: *value }
        }
    }
}

fn copy_request(request: &Request) -> Request {
    match request {
        Request::Time => Request::Time,
        Request::Watch { key } => Request::Watch { key: key.clone() },
        Request::Get { key } => Request::Get { key: key.clone() },
        Request::HGet { key, field } => Request::HGet { key: key.clone(), field: field.clone() },
        Request::Del { key } => Request::Del { key: key.clone() },
        Request::Atomic { writes, read } => {
            Request::Atomic { writes: writes.iter().map(copy_write).collect(), read: read.clone() }
        }
    }
}

/// The keys that a request names.
fn keys_of(request: &Request) -> Vec<String> {
    match request {
        Request::Time => vec![],
        Request::Watch { key }
        | Request::Get { key }
        | Request::HGet { key, .. }
        | Request::Del { key } => vec![key.clone()],
        Request::Atomic { writes, read } => writes
            .iter()
            .map(|write| match write {
                Write::SetScalar { key, .. } | Write::SetField { key, .. } => key.clone(),
            })
            .chain(read.iter().cloned())
            .collect(),
    }
}

/// Whether the key is the epoch, the hash or a sentinel under the prefix.
fn in_namespace(prefix: &str, key: &str) -> bool {
    match key.strip_prefix(prefix) {
        Some(":start") | Some(":governor:hash") => true,
        Some(rest) => match rest.strip_prefix(":governor:value:") {
            Some(digest) => {
                !digest.is_empty()
                    && digest.chars().all(|c| c.is_ascii_digit() || ('a'..='f').contains(&c))
            }
            None => false,
        },
        None => false,
    }
}

/// A store in memory that serves sessions one request at a time, with
/// watches and atomic sections as a single primary has them.
struct Server {
    scalars: HashMap<String, u64>,
    hashes: HashMap<String, HashMap<String, u64>>,
    watching: HashMap<usize, HashSet<String>>,
    dirty: HashSet<usize>,
    secs: u64,
    micros: u64,
    sessions: usize,
    /// Every request that was served, with its session.
    served: Vec<(usize, Request)>,
    /// Every write that an atomic section carried out.
    written: Vec<Write>,
    aborted: usize,
}

impl Server {
    fn new() -> Rc<RefCell<Server>> {
        Rc::new(RefCell::new(Server {
            scalars: HashMap::new(),
            hashes: HashMap::new(),
            watching: HashMap::new(),
            dirty: HashSet::new(),
            secs: 1_700_000_000,
            micros: 0,
            sessions: 0,
            served: Vec::new(),
            written: Vec::new(),
            aborted: 0,
        }))
    }

    fn connect(&mut self) -> usize {
        self.sessions += 1;
        self.sessions
    }

    fn advance(&mut self, by: Duration) {
        let micros = self.micros + by.subsec_micros() as u64;
        self.secs += by.as_secs() + micros / 1_000_000;
        self.micros = micros % 1_000_000;
    }

    fn touch(&mut self, key: &str) {
        for (session, keys) in self.watching.iter() {
            if keys.contains(key) {
                self.dirty.insert(*session);
            }
        }
    }

    fn serve(&mut self, session: usize, request: &Request) -> Reply {
        let reply = match request {
            Request::Time => Reply::Time { secs: self.secs, micros: self.micros },
            Request::Watch { key } => {
                self.watching.entry(session).or_default().insert(key.clone());
                Reply::Done
            }
            Request::Get { key } => Reply::Value(self.scalars.get(key).copied()),
            Request::HGet { key, field } => {
                Reply::Value(self.hashes.get(key).and_then(|fields| fields.get(field)).copied())
            }
            Request::Del { key } => {
                let held = self.scalars.remove(key).is_some() | self.hashes.remove(key).is_some();
                if held {
                    self.touch(key);
                }
                Reply::Done
            }
            Request::Atomic { writes, read } => {
                let dirty = self.dirty.remove(&session);
                self.watching.remove(&session);
                if dirty {
                    self.aborted += 1;
                    Reply::Aborted
                } else {
                    for write in writes {
                        match write {
                            Write::SetScalar { key, value } => {
                                self.hashes.remove(key);
                                self.scalars.insert(key.clone(), *value);
                                self.touch(key);
                            }
                            Write::SetField { key, field, value } => {
                                assert!(!self.scalars.contains_key(key), "HSET on a scalar");
                                self.hashes.entry(key.clone()).or_default().insert(field.clone(), *value);
                                self.touch(key);
                            }
                        }
                        self.written.push(copy_write(write));
                    }
                    self.dirty.remove(&session);
                    Reply::Committed(read.as_ref().and_then(|key| self.scalars.get(key).copied()))
                }
            }
        };
        self.served.push((session, copy_request(request)));
        reply
    }

    fn field_writes(&self, hash: &str, digest: &str) -> usize {
        self.written
            .iter()
            .filter(|write| match write {
                Write::SetField { key, field, .. } => key == hash && field == digest,
                _ => false,
            })
            .count()
    }

    fn scalar_writes(&self, name: &str) -> usize {
        self.written
            .iter()
            .filter(|write| match write {
                Write::SetScalar { key, .. } => key == name,
                _ => false,
            })
            .count()
    }
}

/// What runs between a session's decision and its atomic section: the other
/// sessions' chance to get in first.
type Rivals = Rc<RefCell<Option<Box<dyn Fn()>>>>;

fn no_rivals() -> Rivals {
    Rc::new(RefCell::new(None))
}

/// Takes down the bytes that a key feeds to a hasher.
struct Feed(Vec<u8>);

impl Hasher for Feed {
    fn finish(&self) -> u64 {
        0
    }

    fn write(&mut self, bytes: &[u8]) {
        self.0.extend_from_slice(bytes);
    }

    fn write_u16(&mut self, i: u16) {
        self.0.extend_from_slice(&i.to_le_bytes());
    }

    fn write_u32(&mut self, i: u32) {
        self.0.extend_from_slice(&i.to_le_bytes());
    }

    fn write_u64(&mut self, i: u64) {
        self.0.extend_from_slice(&i.to_le_bytes());
    }

    fn write_usize(&mut self, i: usize) {
        self.0.extend_from_slice(&i.to_le_bytes());
    }
}

fn feed_of<K: Hash>(key: &K) -> Vec<u8> {
    let mut feed = Feed(Vec::new());
    key.hash(&mut feed);
    feed.0
}

#[derive(Clone, Copy, Debug, PartialEq, Eq, PartialOrd, Ord)]
struct Instant(RedisInstant);

impl Add<Nanos> for Instant {
    type Output = Instant;

    fn add(self, other: Nanos) -> Instant {
        assert!(self.0.as_nanos().checked_add(other.as_u64()).is_some());
        Instant(self.0.add(other.as_u64()))
    }
}

impl Reference for Instant {
    fn duration_since(&self, earlier: Self) -> Nanos {
        Nanos::new(self.0.duration_since(earlier.0))
    }

    fn saturating_sub(&self, duration: Nanos) -> Self {
        Instant(self.0.saturating_sub(duration.as_u64()))
    }
}

/// The clock of one session. A limiter takes its first reading as the point
/// from which it counts, so the first reading is the fleet's epoch.
struct SessionClock {
    server: Rc<RefCell<Server>>,
    session: usize,
    clock: RedisClock,
    primed: Cell<bool>,
}

impl SessionClock {
    fn read(&self) -> Instant {
        let reply = self.server.borrow_mut().serve(self.session, &Request::Time);
        match reply {
            Reply::Time { secs, micros } => {
                Instant(self.clock.now(secs, micros).expect("time out of range"))
            }
            other => panic!("unexpected reply to TIME: {:?}", other),
        }
    }

    fn start(&self) -> Instant {
        let mut election = self.clock.start();
        let mut step = election.pending();
        loop {
            match step {
                ElectionStep::Send(request) => {
                    let reply = self.server.borrow_mut().serve(self.session, &request);
                    step = election.step(reply);
                }
                ElectionStep::Elected(epoch) => return Instant(epoch),
                ElectionStep::Failed(fault) => panic!("election failed: {:?}", fault),
            }
        }
    }
}

impl Clock for SessionClock {
    type Instant = Instant;

    fn now(&self) -> Instant {
        if self.primed.replace(true) {
            self.read()
        } else {
            self.start()
        }
    }
}

struct SessionState<K> {
    server: Rc<RefCell<Server>>,
    session: usize,
    store: RedisStateStore,
    rivals: Rivals,
    key: PhantomData<K>,
}

impl<K: Hash + Eq + Clone + Debug> StateStore for SessionState<K> {
    type Key = K;

    fn measure_and_replace<T, F, E>(&self, key: &K, f: F) -> Result<T, E>
    where
        F: Fn(Option<Nanos>) -> Result<(T, Nanos), E>,
    {
        let (mut replacement, first) = self.store.measure_and_replace(&feed_of(key));
        let mut step = Step::Send(first);
        loop {
            let event = match step {
                Step::Send(request) => {
                    if matches!(request, Request::Atomic { .. }) {
                        if let Some(rivals) = self.rivals.borrow().as_ref() {
                            rivals();
                        }
                    }
                    Event::Reply(self.server.borrow_mut().serve(self.session, &request))
                }
                Step::Decide(prev) => match f(prev.map(Nanos::new)) {
                    Ok((outcome, value)) => Event::Accept(outcome, value.as_u64()),
                    Err(error) => Event::Reject(error),
                },
                Step::Done(result) => return result,
                Step::Failed(fault) => panic!("replacement failed: {:?}", fault),
            };
            step = replacement.step(event);
        }
    }
}

type Limiter<K> = RateLimiter<K, SessionState<K>, SessionClock, NoOpMiddleware<Instant>>;

/// One connection to the server with the governor's instance on it.
struct Session {
    server: Rc<RefCell<Server>>,
    session: usize,
    instance: GovernorInstance,
    rivals: Rivals,
}

impl Session {
    fn open(server: &Rc<RefCell<Server>>, governor: &RedisGovernor, rivals: &Rivals) -> Session {
        Session {
            server: server.clone(),
            session: server.borrow_mut().connect(),
            instance: governor.instance(),
            rivals: rivals.clone(),
        }
    }

    fn wipe(&self) {
        for request in self.instance.wipe() {
            let reply = self.server.borrow_mut().serve(self.session, &request);
            assert_eq!(reply, Reply::Done);
        }
    }

    fn clock(&self) -> SessionClock {
        SessionClock {
            server: self.server.clone(),
            session: self.session,
            clock: self.instance.clock().clone(),
            primed: Cell::new(false),
        }
    }

    fn rate_limiter<K: Hash + Eq + Clone + Debug>(&self, quota: Quota) -> Limiter<K> {
        let state = SessionState {
            server: self.server.clone(),
            session: self.session,
            store: self.instance.state().clone(),
            rivals: self.rivals.clone(),
            key: PhantomData,
        };
        RateLimiter::new(quota, state, self.clock())
    }
}

/// Fixed quota to ensure that the passing of time cannot leak the bucket.
fn fixed_quota(limit: u32) -> Quota {
    const DAY_IN_SECS: u64 = 60 * 60;

    // Use 1 hour as an arbitrarily long period to prevent bucket leaking.
    Quota::with_period(Duration::from_secs(DAY_IN_SECS))
        .expect("failed to create quota")
        .allow_burst(NonZeroU32::new(limit).expect("limit must be greater than zero"))
}

fn should_rate_limit<K: Hash + Debug + Eq + Clone>(limiter: &Limiter<K>, key: &K) {
    let _ = limiter.check_key(key).expect_err("not rate limited when expected");
}

fn should_not_rate_limit<K: Hash + Debug + Eq + Clone>(limiter: &Limiter<K>, key: &K) {
    let _ = limiter.check_key(key).expect("unexpectedly rate limited");
}

const TEST_DIGEST: &str = "a6a6ffdf9acccd52";

#[test]
fn rate_limiter_works() {
    const LIMIT: u32 = 5u32;

    let server = Server::new();
    let quota = fixed_quota(LIMIT);

    let pooled_governor = RedisGovernor::new("basic-rate-limiter-test");
    let governor = Session::open(&server, &pooled_governor, &no_rivals());
    governor.wipe();

    let redis_limiter = governor.rate_limiter(quota);

    for _ in 0..LIMIT {
        should_not_rate_limit(&redis_limiter, &"test");
    }

    should_rate_limit(&redis_limiter, &"test");
}

#[test]
fn rate_limiter_can_recover() {
    const MINUTELY_LIMIT: u32 = 12u32;

    let server = Server::new();
    let quota = Quota::per_minute(NonZeroU32::new(MINUTELY_LIMIT).unwrap());

    let pooled_governor = RedisGovernor::new("rate-limiter-recovery-test");
    let governor = Session::open(&server, &pooled_governor, &no_rivals());
    governor.wipe();

    let redis_limiter = governor.rate_limiter(quota);

    for _ in 0..MINUTELY_LIMIT {
        should_not_rate_limit(&redis_limiter, &"test");
    }

    // Ensure over the limit
    for _ in 0..MINUTELY_LIMIT {
        let _ = redis_limiter.check_key(&"test");
    }

    should_rate_limit(&redis_limiter, &"test");

    server.borrow_mut().advance(Duration::from_secs((60 / MINUTELY_LIMIT) as u64));

    should_not_rate_limit(&redis_limiter, &"test");
}

/// Workers that take turns, and that break in on each other between a
/// decision and its atomic section.
struct Crowd<K: Hash + Eq + Clone + Debug + 'static> {
    limiters: Vec<(Limiter<K>, K)>,
    tries_left: RefCell<Vec<u32>>,
    accepted: Cell<u32>,
    /// The workers that are in the middle of a call: a connection serves
    /// one call at a time.
    calling: RefCell<Vec<usize>>,
    turn: Cell<usize>,
}

impl<K: Hash + Eq + Clone + Debug + 'static> Crowd<K> {
    fn try_once(&self, worker: usize) -> bool {
        {
            let mut tries_left = self.tries_left.borrow_mut();
            if tries_left[worker] == 0 {
                return false;
            }
            tries_left[worker] -= 1;
        }
        let (limiter, key) = &self.limiters[worker];
        self.calling.borrow_mut().push(worker);
        should_not_rate_limit(limiter, key);
        self.calling.borrow_mut().pop();
        self.accepted.set(self.accepted.get() + 1);
        true
    }

    /// Lets one other worker in, every third time, two deep at most.
    fn break_in(&self) {
        let turn = self.turn.get();
        self.turn.set(turn + 1);
        if turn % 3 != 0 || self.calling.borrow().len() > 2 {
            return;
        }
        let workers = self.limiters.len();
        let rival = (1..workers)
            .map(|offset| (turn + offset) % workers)
            .find(|rival| !self.calling.borrow().contains(rival));
        if let Some(rival) = rival {
            self.try_once(rival);
        }
    }

    fn run(crowd: &Rc<Crowd<K>>, rivals: &Rivals) {
        let inside = crowd.clone();
        *rivals.borrow_mut() = Some(Box::new(move || inside.break_in()));
        let mut busy = true;
        while busy {
            busy = false;
            for worker in 0..crowd.limiters.len() {
                busy |= crowd.try_once(worker);
            }
        }
        *rivals.borrow_mut() = None;
    }
}

#[test]
fn rate_limiter_works_when_contended() {
    const THREADS: u32 = 10;
    const LIMIT: u32 = 10000;
    const TRIES_PER_THREAD: u32 = LIMIT / THREADS;
    const PREFIX: &str = "concurrent-rate-limiter-test";

    // Use fixed quota so spillover is not possible which would cause test flakes
    let quota = fixed_quota(LIMIT);
    let server = Server::new();
    let rivals = no_rivals();
    let pool = RedisGovernor::new(PREFIX);
    let governor = Session::open(&server, &pool, &rivals);
    governor.wipe();

    let crowd = Rc::new(Crowd {
        limiters: (0..THREADS)
            .map(|_| {
                // Each worker gets its own connection
                let governor = Session::open(&server, &pool.clone(), &rivals);
                (governor.rate_limiter(quota), "test")
            })
            .collect(),
        tries_left: RefCell::new(vec![TRIES_PER_THREAD; THREADS as usize]),
        accepted: Cell::new(0),
        calling: RefCell::new(Vec::new()),
        turn: Cell::new(0),
    });
    Crowd::run(&crowd, &rivals);

    assert_eq!(crowd.accepted.get(), LIMIT);
    assert!(server.borrow().aborted > 0, "the workers never got in each other's way");
    assert_eq!(
        server.borrow().field_writes("concurrent-rate-limiter-test:governor:hash", TEST_DIGEST),
        LIMIT as usize
    );

    should_rate_limit(&governor.rate_limiter(quota), &"test");
}

#[test]
fn can_maintain_disjoint_rate_limits() {
    const JOBS: u32 = 2;
    const THREADS: u32 = 5;
    const LIMIT: u32 = 200;
    const TRIES_PER_THREAD: u32 = LIMIT / THREADS;
    const PREFIX: &str = "disjoint-rate-limiter-test";

    // Use fixed quota so spillover is not possible which would cause test flakes
    let quota = fixed_quota(LIMIT);
    let server = Server::new();
    let rivals = no_rivals();
    let pool = RedisGovernor::new(PREFIX);
    let governor = Session::open(&server, &pool, &rivals);
    governor.wipe();

    let mut limiters = vec![];

    for job in 0..JOBS {
        let key_name = format!("test-{}", job);

        limiters.extend((0..THREADS).map(|_| {
            let governor = Session::open(&server, &pool.clone(), &rivals);
            (governor.rate_limiter(quota), key_name.clone())
        }));
    }

    let crowd = Rc::new(Crowd {
        limiters,
        tries_left: RefCell::new(vec![TRIES_PER_THREAD; (JOBS * THREADS) as usize]),
        accepted: Cell::new(0),
        calling: RefCell::new(Vec::new()),
        turn: Cell::new(0),
    });
    Crowd::run(&crowd, &rivals);

    assert_eq!(crowd.accepted.get(), JOBS * LIMIT);
    assert!(server.borrow().aborted > 0, "the workers never got in each other's way");
    let hash = "disjoint-rate-limiter-test:governor:hash";
    assert_eq!(server.borrow().field_writes(hash, "bf46bad7e0653637"), LIMIT as usize);
    assert_eq!(server.borrow().field_writes(hash, "ba7c42de061028a"), LIMIT as usize);

    for job in 0..JOBS {
        let key_name = format!("test-{}", job);

        should_rate_limit(&governor.rate_limiter(quota), &key_name);
    }
}

#[test]
fn epoch_is_elected_once_for_all_workers() {
    const WORKERS: usize = 8;
    let server = Server::new();
    let pool = RedisGovernor::new("epoch-test");

    let sessions: Vec<Session> =
        (0..WORKERS).map(|_| Session::open(&server, &pool, &no_rivals())).collect();
    let clocks: Vec<RedisClock> =
        sessions.iter().map(|session| session.instance.clock().clone()).collect();
    let mut elections: Vec<_> = clocks.iter().map(|clock| clock.start()).collect();
    let mut epochs: Vec<Option<RedisInstant>> = vec![None; WORKERS];

    // One request of each worker in turn, the server's time moving on.
    while epochs.iter().any(|epoch| epoch.is_none()) {
        for worker in 0..WORKERS {
            match elections[worker].pending() {
                ElectionStep::Send(request) => {
                    server.borrow_mut().advance(Duration::from_micros(7));
                    let reply = server.borrow_mut().serve(sessions[worker].session, &request);
                    elections[worker].step(reply);
                }
                ElectionStep::Elected(epoch) => epochs[worker] = Some(epoch),
                ElectionStep::Failed(fault) => panic!("election failed: {:?}", fault),
            }
        }
    }

    let stored = server.borrow().scalars.get("epoch-test:start").copied();
    assert!(stored.is_some());
    for epoch in epochs.iter() {
        assert_eq!(epoch.map(|epoch| epoch.as_nanos()), stored);
    }
    assert_eq!(server.borrow().scalar_writes("epoch-test:start"), 1);
    assert_eq!(server.borrow().aborted, WORKERS - 1);

    // A later election finds the same epoch and writes nothing.
    server.borrow_mut().advance(Duration::from_secs(5));
    let late = Session::open(&server, &pool, &no_rivals());
    assert_eq!(Some(late.clock().start().0.as_nanos()), stored);
    assert_eq!(server.borrow().scalar_writes("epoch-test:start"), 1);
}

#[test]
fn wipe_lets_a_limited_key_through_again() {
    const LIMIT: u32 = 5u32;

    let server = Server::new();
    let quota = fixed_quota(LIMIT);
    let pool = RedisGovernor::new("wipe-test");
    let governor = Session::open(&server, &pool, &no_rivals());
    governor.wipe();

    let limiter = governor.rate_limiter(quota);
    for _ in 0..LIMIT {
        should_not_rate_limit(&limiter, &"test");
    }
    should_rate_limit(&limiter, &"test");

    governor.wipe();

    should_not_rate_limit(&limiter, &"test");
}

#[test]
fn wipe_twice_is_wipe_once() {
    let server = Server::new();
    let pool = RedisGovernor::new("wipe-test");
    let governor = Session::open(&server, &pool, &no_rivals());
    let limiter = governor.rate_limiter(fixed_quota(3));
    should_not_rate_limit(&limiter, &"test");
    should_not_rate_limit(&limiter, &"other");

    governor.wipe();
    let scalars = server.borrow().scalars.clone();
    let hashes = server.borrow().hashes.clone();
    assert!(!scalars.contains_key("wipe-test:start"));
    assert!(!hashes.contains_key("wipe-test:governor:hash"));
    // the sentinels are left behind
    assert!(scalars.contains_key("wipe-test:governor:value:a6a6ffdf9acccd52"));

    governor.wipe();
    assert_eq!(server.borrow().scalars, scalars);
    assert_eq!(server.borrow().hashes, hashes);
}

#[test]
fn accepted_calls_are_the_writes_to_the_cell() {
    const LIMIT: u32 = 5u32;
    const CALLS: u32 = 12;

    let server = Server::new();
    let pool = RedisGovernor::new("conservation-test");
    let governor = Session::open(&server, &pool, &no_rivals());
    let limiter = governor.rate_limiter(fixed_quota(LIMIT));

    let mut accepted = 0;
    for _ in 0..CALLS {
        if limiter.check_key(&"test").is_ok() {
            accepted += 1;
        }
    }

    assert_eq!(accepted, LIMIT);
    assert_eq!(
        server.borrow().field_writes("conservation-test:governor:hash", TEST_DIGEST),
        LIMIT as usize
    );
}

#[test]
fn sentinel_mirrors_the_cell_after_every_call() {
    let server = Server::new();
    let pool = RedisGovernor::new("coherence-test");
    let governor = Session::open(&server, &pool, &no_rivals());
    let limiter = governor.rate_limiter(fixed_quota(4));

    for _ in 0..6 {
        let _ = limiter.check_key(&"test");
        server.borrow_mut().advance(Duration::from_millis(3));
        let server = server.borrow();
        let cell = server.hashes["coherence-test:governor:hash"][TEST_DIGEST];
        assert_eq!(server.scalars["coherence-test:governor:value:a6a6ffdf9acccd52"], cell);
    }
}

#[test]
fn governors_with_distinct_prefixes_do_not_meet() {
    const LIMIT: u32 = 2;
    let server = Server::new();
    let ours = Session::open(&server, &RedisGovernor::new("tenant"), &no_rivals());
    let theirs = Session::open(&server, &RedisGovernor::new("tenant:governor"), &no_rivals());

    let our_limiter = ours.rate_limiter(fixed_quota(LIMIT));
    for _ in 0..LIMIT {
        should_not_rate_limit(&our_limiter, &"test");
    }
    should_rate_limit(&our_limiter, &"test");

    // their bucket is full although ours is empty
    let their_limiter = theirs.rate_limiter(fixed_quota(LIMIT));
    for _ in 0..LIMIT {
        should_not_rate_limit(&their_limiter, &"test");
    }
    should_rate_limit(&their_limiter, &"test");

    // their wipe leaves ours as it is
    let before = server.borrow().scalars.get("tenant:start").copied();
    theirs.wipe();
    should_rate_limit(&our_limiter, &"test");
    assert_eq!(server.borrow().scalars.get("tenant:start").copied(), before);
    should_not_rate_limit(&their_limiter, &"test");

    let server = server.borrow();
    assert!(server.served.iter().any(|(_, request)| matches!(request, Request::Atomic { .. })));
    for (session, request) in server.served.iter() {
        let (own, foreign) = if *session == ours.session {
            ("tenant", "tenant:governor")
        } else {
            ("tenant:governor", "tenant")
        };
        for key in keys_of(request) {
            assert!(in_namespace(own, &key), "{} is no key of {}", key, own);
            assert!(!in_namespace(foreign, &key), "{} is a key of {}", key, foreign);
        }
    }
}

#[test]
fn key_feed_of_a_str_is_its_bytes_and_a_closing_byte() {
    assert_eq!(feed_of(&"test"), b"test\xff".to_vec());
    assert_eq!(feed_of(&String::from("test-1")), b"test-1\xff".to_vec());
    assert_eq!(feed_of(&7u32), vec![7, 0, 0, 0]);
}
