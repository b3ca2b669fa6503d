//! The backend on the embedded transactional store.
//!
//! The store is one environment directory with one unnamed database that maps
//! a key to the archive of an entry. Opening it, looking a key up and storing
//! an entry are exchanges with the engine, begun by [`LMDBCache::new`],
//! [`LMDBCache::get`] and [`LMDBCache::put`] and carried on by the `step` of
//! what they return.

use vstd::prelude::*;
use std::time::{Duration, Instant};
use crate::cache::archive::{encode_archive, parse_archive, Streams};
use crate::cache::engine::{Action, ActionView, Event, EventView, Step, StepView};
use crate::cache::entry::{Cache, CacheRead, CacheWrite};
use crate::errors::{CodecError, EngineError, Error};

verus! {

/// `std::time::Instant`, a reading of the monotonic clock. Nothing is read
/// from it.
#[verifier::external_type_specification]
#[verifier::external_body]
pub struct ExInstant(Instant);

/// `Instant::now` reads the clock. Nothing is claimed of the reading.
pub assume_specification[ Instant::now ]() -> (now: Instant)
;

/// `Instant::elapsed` gives the time since the reading was made. Nothing is
/// claimed of its length.
pub assume_specification[ Instant::elapsed ](start: &Instant) -> (elapsed: Duration)
;

/// The engine's code for a key that is not in the database.
pub const NOT_FOUND: i32 = -30798;

/// Whether `error` is the engine's way of saying that a key is absent. That
/// answer is a miss; every other error is a failure.
pub fn reports_absence(error: &EngineError) -> (absent: bool)
    ensures
        absent == (error.code == NOT_FOUND),
{
    error.code == NOT_FOUND
}

/// A handle on an opened store.
#[derive(Debug, Clone)]
pub struct LMDBCache {
    path: String,
}

/// A handle as the contracts see it: the path of its store.
impl View for LMDBCache {
    type V = Seq<char>;

    closed spec fn view(&self) -> Seq<char> {
        self.path@
    }
}

/// The opening of a store, between two engine calls.
#[derive(Debug)]
pub struct Open {
    path: String,
    database: bool,
}

/// An opening as the contracts see it.
pub enum OpenView {
    /// The environment is being opened.
    Environment { path: Seq<char> },
    /// The environment is open and its database is being opened.
    Database { path: Seq<char> },
}

impl View for Open {
    type V = OpenView;

    closed spec fn view(&self) -> OpenView {
        if self.database {
            OpenView::Database { path: self.path@ }
        } else {
            OpenView::Environment { path: self.path@ }
        }
    }
}

/// How an opening begins: with the environment, whose map is `map_size` bytes
/// cut to the machine's word.
pub open spec fn open_start(path: Seq<char>, map_size: u64) -> StepView<OpenView, Seq<char>> {
    StepView::Perform {
        op: OpenView::Environment { path },
        action: ActionView::OpenEnvironment { path, map_size: map_size as usize },
    }
}

/// How an opening goes on. A failure of either call ends it at once, as an
/// error of opening; after both calls the handle is there.
pub open spec fn open_next(op: OpenView, event: EventView) -> StepView<OpenView, Seq<char>> {
    match event {
        EventView::Failed(error) => StepView::Finished(Err(Error::Open(error))),
        _ => match op {
            OpenView::Environment { path } => StepView::Perform {
                op: OpenView::Database { path },
                action: ActionView::OpenDatabase,
            },
            OpenView::Database { path } => StepView::Finished(Ok(path)),
        },
    }
}

/// A step of an opening as the contracts see it.
pub open spec fn open_step_view(step: Step<Open, LMDBCache>) -> StepView<OpenView, Seq<char>> {
    match step {
        Step::Perform { op, action } => StepView::Perform { op: op@, action: action@ },
        Step::Finished(Ok(cache)) => StepView::Finished(Ok(cache@)),
        Step::Finished(Err(error)) => StepView::Finished(Err(error)),
    }
}

impl Open {
    /// Takes the engine's answer to the call that was asked for.
    pub fn step(self, event: Event) -> (step: Step<Open, LMDBCache>)
        ensures
            open_step_view(step) == open_next(self@, event@),
    {
        match event {
            Event::Failed(error) => Step::Finished(Err(Error::Open(error))),
            _ => if self.database {
                Step::Finished(Ok(LMDBCache { path: self.path }))
            } else {
                Step::Perform {
                    op: Open { path: self.path, database: true },
                    action: Action::OpenDatabase,
                }
            },
        }
    }
}

impl LMDBCache {
    /// Begins to open the store at `path` with a map of at most `map_size`
    /// bytes. The handle is there when both the environment and its database
    /// are open: a store that cannot be opened gives no handle.
    pub fn new(path: &str, map_size: u64) -> (step: Step<Open, LMDBCache>)
        ensures
            open_step_view(step) == open_start(path@, map_size),
    {
        Step::Perform {
            op: Open { path: path.to_owned(), database: false },
            action: Action::OpenEnvironment {
                path: path.to_owned(),
                map_size: #[verifier::truncate] (map_size as usize),
            },
        }
    }

    /// Where the store keeps its data.
    pub fn location(&self) -> (path: String)
        ensures
            path@ == self@,
    {
        self.path.clone()
    }

    /// The bytes in use. The store keeps no count of them.
    pub fn current_size(&self) -> (size: Option<u64>)
        ensures
            size is None,
    {
        None
    }

    /// The most bytes the store will hold. The handle does not track it.
    pub fn max_size(&self) -> (size: Option<u64>)
        ensures
            size is None,
    {
        None
    }
}

/// Where a lookup stands.
#[derive(Debug)]
enum GetState {
    Beginning { key: Vec<u8> },
    LookingUp,
    Committing { outcome: Result<Cache, Error> },
}

/// A lookup, between two engine calls.
#[derive(Debug)]
pub struct Get {
    state: GetState,
}

/// A lookup as the contracts see it.
pub enum GetView {
    /// The read-only transaction for `key` is being begun.
    Beginning { key: Seq<u8> },
    /// The key is being looked up.
    LookingUp,
    /// The transaction is being committed; `outcome` is what the lookup gave.
    Committing { outcome: Result<Option<Streams>, Error> },
}

impl View for Get {
    type V = GetView;

    closed spec fn view(&self) -> GetView {
        match self.state {
            GetState::Beginning { key } => GetView::Beginning { key: key@ },
            GetState::LookingUp => GetView::LookingUp,
            GetState::Committing { outcome } => GetView::Committing {
                outcome: outcome_view(outcome),
            },
        }
    }
}

/// The result of a lookup as the contracts see it: the streams of a hit,
/// `None` for a miss.
pub open spec fn outcome_view(outcome: Result<Cache, Error>) -> Result<Option<Streams>, Error> {
    match outcome {
        Ok(cache) => Ok(cache@),
        Err(error) => Err(error),
    }
}

/// What the engine's answer to a lookup means. Bytes that were found are a
/// hit if they are an archive and a codec failure if they are not: the key was
/// there. An answer without bytes, and the engine's own error for an absent
/// key, are a miss. Any other error is a failure of the operation.
pub open spec fn lookup_outcome(event: EventView) -> Result<Option<Streams>, Error> {
    match event {
        EventView::Found(value) => match parse_archive(value) {
            Ok(streams) => Ok(Some(streams)),
            Err(error) => Err(Error::Codec(error)),
        },
        EventView::Done => Ok(None),
        EventView::Failed(error) => if error.code == NOT_FOUND {
            Ok(None)
        } else {
            Err(Error::Transaction(error))
        },
    }
}

/// How a lookup begins: with a read-only transaction.
pub open spec fn get_start(key: Seq<u8>) -> StepView<GetView, Option<Streams>> {
    StepView::Perform { op: GetView::Beginning { key }, action: ActionView::BeginRead }
}

/// How a lookup goes on. Without a transaction it ends at once. With one, the
/// key is looked up and the transaction is committed whatever the lookup gave;
/// a commit that fails is the result, else what the lookup gave.
pub open spec fn get_next(op: GetView, event: EventView) -> StepView<GetView, Option<Streams>> {
    match op {
        GetView::Beginning { key } => match event {
            EventView::Failed(error) => StepView::Finished(Err(Error::Transaction(error))),
            _ => StepView::Perform { op: GetView::LookingUp, action: ActionView::Lookup { key } },
        },
        GetView::LookingUp => StepView::Perform {
            op: GetView::Committing { outcome: lookup_outcome(event) },
            action: ActionView::Commit,
        },
        GetView::Committing { outcome } => match event {
            EventView::Failed(error) => StepView::Finished(Err(Error::Transaction(error))),
            _ => StepView::Finished(outcome),
        },
    }
}

/// A step of a lookup as the contracts see it.
pub open spec fn get_step_view(step: Step<Get, Cache>) -> StepView<GetView, Option<Streams>> {
    match step {
        Step::Perform { op, action } => StepView::Perform { op: op@, action: action@ },
        Step::Finished(outcome) => StepView::Finished(outcome_view(outcome)),
    }
}

/// Reads the engine's answer to a lookup.
fn read_lookup(event: Event) -> (outcome: Result<Cache, Error>)
    ensures
        outcome_view(outcome) == lookup_outcome(event@),
{
    match event {
        Event::Found(value) => match CacheRead::from(value) {
            Ok(entry) => Ok(Cache::Hit(entry)),
            Err(error) => Err(Error::Codec(error)),
        },
        Event::Done => Ok(Cache::Miss),
        Event::Failed(error) => if reports_absence(&error) {
            Ok(Cache::Miss)
        } else {
            Err(Error::Transaction(error))
        },
    }
}

impl Get {
    /// Takes the engine's answer to the call that was asked for.
    pub fn step(self, event: Event) -> (step: Step<Get, Cache>)
        ensures
            get_step_view(step) == get_next(self@, event@),
    {
        match self.state {
            GetState::Beginning { key } => match event {
                Event::Failed(error) => Step::Finished(Err(Error::Transaction(error))),
                _ => Step::Perform {
                    op: Get { state: GetState::LookingUp },
                    action: Action::Lookup { key },
                },
            },
            GetState::LookingUp => Step::Perform {
                op: Get { state: GetState::Committing { outcome: read_lookup(event) } },
                action: Action::Commit,
            },
            GetState::Committing { outcome } => match event {
                Event::Failed(error) => Step::Finished(Err(Error::Transaction(error))),
                _ => Step::Finished(outcome),
            },
        }
    }
}

/// Where a store stands.
#[derive(Debug)]
enum PutState {
    Beginning { key: Vec<u8>, value: Vec<u8> },
    Writing,
    Committing,
    Aborting { cause: EngineError },
}

/// The storing of an entry, between two engine calls.
#[derive(Debug)]
pub struct Put {
    started: Instant,
    state: PutState,
}

/// A store as the contracts see it.
pub enum PutView {
    /// The read-write transaction is being begun; `value` is the archive that
    /// will go under `key`.
    Beginning { key: Seq<u8>, value: Seq<u8> },
    /// The archive is being written.
    Writing,
    /// The transaction is being committed.
    Committing,
    /// The write failed with `cause` and the transaction is being aborted.
    Aborting { cause: EngineError },
}

impl View for Put {
    type V = PutView;

    closed spec fn view(&self) -> PutView {
        match self.state {
            PutState::Beginning { key, value } => PutView::Beginning { key: key@, value: value@ },
            PutState::Writing => PutView::Writing,
            PutState::Committing => PutView::Committing,
            PutState::Aborting { cause } => PutView::Aborting { cause },
        }
    }
}

/// How a store begins: the entry is turned into its archive first. An entry
/// that has none ends the store before any engine call; else a read-write
/// transaction is begun.
pub open spec fn put_start(key: Seq<u8>, entry: Streams) -> StepView<PutView, ()> {
    if encode_archive(entry).len() <= isize::MAX {
        StepView::Perform {
            op: PutView::Beginning { key, value: encode_archive(entry) },
            action: ActionView::BeginWrite,
        }
    } else {
        StepView::Finished(Err(Error::Codec(CodecError::TooLarge)))
    }
}

/// How a store goes on. Without a transaction it ends at once. A write that
/// succeeds is committed, and the store succeeds if the commit does. A write
/// that fails is answered by aborting the transaction, and its error is the
/// result whatever the engine says of the abort.
pub open spec fn put_next(op: PutView, event: EventView) -> StepView<PutView, ()> {
    match op {
        PutView::Beginning { key, value } => match event {
            EventView::Failed(error) => StepView::Finished(Err(Error::Transaction(error))),
            _ => StepView::Perform {
                op: PutView::Writing,
                action: ActionView::Write { key, value },
            },
        },
        PutView::Writing => match event {
            EventView::Failed(error) => StepView::Perform {
                op: PutView::Aborting { cause: error },
                action: ActionView::Abort,
            },
            _ => StepView::Perform { op: PutView::Committing, action: ActionView::Commit },
        },
        PutView::Committing => match event {
            EventView::Failed(error) => StepView::Finished(Err(Error::Transaction(error))),
            _ => StepView::Finished(Ok(())),
        },
        PutView::Aborting { cause } => StepView::Finished(Err(Error::Transaction(cause))),
    }
}

/// A step of a store as the contracts see it. The time that a finished store
/// reports is a reading of the clock and has no place in it.
pub open spec fn put_step_view(step: Step<Put, Duration>) -> StepView<PutView, ()> {
    match step {
        Step::Perform { op, action } => StepView::Perform { op: op@, action: action@ },
        Step::Finished(Ok(_)) => StepView::Finished(Ok(())),
        Step::Finished(Err(error)) => StepView::Finished(Err(error)),
    }
}

impl Put {
    /// Takes the engine's answer to the call that was asked for. A store that
    /// succeeds reports the time since it began, from before the entry was
    /// turned into bytes until after the commit.
    pub fn step(self, event: Event) -> (step: Step<Put, Duration>)
        ensures
            put_step_view(step) == put_next(self@, event@),
    {
        let started = self.started;
        match self.state {
            PutState::Beginning { key, value } => match event {
                Event::Failed(error) => Step::Finished(Err(Error::Transaction(error))),
                _ => Step::Perform {
                    op: Put { started, state: PutState::Writing },
                    action: Action::Write { key, value },
                },
            },
            PutState::Writing => match event {
                Event::Failed(error) => Step::Perform {
                    op: Put { started, state: PutState::Aborting { cause: error } },
                    action: Action::Abort,
                },
                _ => Step::Perform {
                    op: Put { started, state: PutState::Committing },
                    action: Action::Commit,
                },
            },
            PutState::Committing => match event {
                Event::Failed(error) => Step::Finished(Err(Error::Transaction(error))),
                _ => Step::Finished(Ok(started.elapsed())),
            },
            PutState::Aborting { cause } => Step::Finished(Err(Error::Transaction(cause))),
        }
    }
}

impl LMDBCache {
    /// Begins to look `key` up.
    pub fn get(&self, key: Vec<u8>) -> (step: Step<Get, Cache>)
        ensures
            get_step_view(step) == get_start(key@),
    {
        Step::Perform { op: Get { state: GetState::Beginning { key } }, action: Action::BeginRead }
    }

    /// Begins to store `entry` under `key`. The clock is read before the
    /// entry is turned into bytes.
    pub fn put(&self, key: Vec<u8>, entry: CacheWrite) -> (step: Step<Put, Duration>)
        ensures
            put_step_view(step) == put_start(key@, entry@),
    {
        let started = Instant::now();
        match entry.finish() {
            Ok(value) => Step::Perform {
                op: Put { started, state: PutState::Beginning { key, value } },
                action: Action::BeginWrite,
            },
            Err(error) => Step::Finished(Err(Error::Codec(error))),
        }
    }
}

} // verus!
