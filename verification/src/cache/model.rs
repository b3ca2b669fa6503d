//! A model of the transactional store, and what lookups and stores do to it.
//!
//! The model answers the engine calls of an operation one by one. A schedule
//! of faults makes chosen calls fail, which is how a failing disk or a full
//! map is played through.

use vstd::prelude::*;
use crate::cache::archive::{encode_archive, lemma_round_trip, well_formed, Streams};
use crate::cache::engine::{ActionView, EventView, StepView};
use crate::cache::lmdb::{
    get_next, get_start, lookup_outcome, put_next, put_start, GetView, PutView, NOT_FOUND,
};
use crate::errors::{EngineError, Error};

verus! {

/// The engine's code for a call that the open transaction does not allow.
pub const BAD_TXN: i32 = -30782;

/// The transaction that is open on a store.
pub enum Transaction {
    /// A read-only transaction.
    Read,
    /// A read-write transaction and the entries as it has them.
    Write(Map<Seq<u8>, Seq<u8>>),
}

/// A store: the entries that are committed, and the transaction that is open.
pub struct Store {
    pub committed: Map<Seq<u8>, Seq<u8>>,
    pub open: Option<Transaction>,
}

/// `store` with no transaction open.
pub open spec fn without_transaction(store: Store) -> Store {
    Store { committed: store.committed, open: None }
}

/// The engine's answer to `action` on `store`, and the store after it.
///
/// With a fault the call fails with the fault's error. A commit or an abort
/// that fails still ends the transaction, and nothing of it is kept; any other
/// failed call leaves the store as it was. Without a fault a lookup answers
/// from the committed entries, a write changes only its transaction's entries,
/// and a commit makes them the committed ones. A call that the open
/// transaction does not allow fails and changes nothing.
pub open spec fn react(store: Store, action: ActionView, fault: Option<EngineError>) -> (
    EventView,
    Store,
) {
    let refused = (EventView::Failed(EngineError { code: BAD_TXN }), store);
    match fault {
        Some(error) => match action {
            ActionView::Commit | ActionView::Abort => (
                EventView::Failed(error),
                without_transaction(store),
            ),
            _ => (EventView::Failed(error), store),
        },
        None => match action {
            ActionView::OpenEnvironment { .. } | ActionView::OpenDatabase => (
                EventView::Done,
                store,
            ),
            ActionView::BeginRead => match store.open {
                None => (
                    EventView::Done,
                    Store { committed: store.committed, open: Some(Transaction::Read) },
                ),
                Some(_) => refused,
            },
            ActionView::BeginWrite => match store.open {
                None => (
                    EventView::Done,
                    Store {
                        committed: store.committed,
                        open: Some(Transaction::Write(store.committed)),
                    },
                ),
                Some(_) => refused,
            },
            ActionView::Lookup { key } => match store.open {
                None => refused,
                Some(_) => if store.committed.contains_key(key) {
                    (EventView::Found(store.committed[key]), store)
                } else {
                    (EventView::Failed(EngineError { code: NOT_FOUND }), store)
                },
            },
            ActionView::Write { key, value } => match store.open {
                Some(Transaction::Write(entries)) => (
                    EventView::Done,
                    Store {
                        committed: store.committed,
                        open: Some(Transaction::Write(entries.insert(key, value))),
                    },
                ),
                _ => refused,
            },
            ActionView::Commit => match store.open {
                None => refused,
                Some(Transaction::Read) => (EventView::Done, without_transaction(store)),
                Some(Transaction::Write(entries)) => (
                    EventView::Done,
                    Store { committed: entries, open: None },
                ),
            },
            ActionView::Abort => match store.open {
                None => refused,
                Some(_) => (EventView::Done, without_transaction(store)),
            },
        },
    }
}

/// The fault of the `i`-th call of an operation: none where the schedule has
/// ended.
pub open spec fn fault_at(faults: Seq<Option<EngineError>>, i: int) -> Option<EngineError> {
    if 0 <= i < faults.len() {
        faults[i]
    } else {
        None
    }
}

/// The engine calls that a lookup has still to make, at most.
pub open spec fn get_calls_left(step: StepView<GetView, Option<Streams>>) -> nat {
    match step {
        StepView::Finished(_) => 0,
        StepView::Perform { op: GetView::Committing { .. }, .. } => 1,
        StepView::Perform { op: GetView::LookingUp, .. } => 2,
        StepView::Perform { op: GetView::Beginning { .. }, .. } => 3,
    }
}

/// Carries a lookup on against `store` from its call number `i` to its end:
/// the result, and the store as the lookup leaves it.
pub open spec fn drive_get(
    step: StepView<GetView, Option<Streams>>,
    store: Store,
    faults: Seq<Option<EngineError>>,
    i: int,
) -> (Result<Option<Streams>, Error>, Store)
    decreases get_calls_left(step),
{
    match step {
        StepView::Finished(result) => (result, store),
        StepView::Perform { op, action } => {
            let (event, next) = react(store, action, fault_at(faults, i));
            drive_get(get_next(op, event), next, faults, i + 1)
        },
    }
}

/// A whole lookup of `key` against `store`.
pub open spec fn run_get(store: Store, key: Seq<u8>, faults: Seq<Option<EngineError>>) -> (
    Result<Option<Streams>, Error>,
    Store,
) {
    drive_get(get_start(key), store, faults, 0)
}

/// The engine calls that a store has still to make, at most.
pub open spec fn put_calls_left(step: StepView<PutView, ()>) -> nat {
    match step {
        StepView::Finished(_) => 0,
        StepView::Perform { op: PutView::Committing, .. } => 1,
        StepView::Perform { op: PutView::Aborting { .. }, .. } => 1,
        StepView::Perform { op: PutView::Writing, .. } => 2,
        StepView::Perform { op: PutView::Beginning { .. }, .. } => 3,
    }
}

/// Carries a store on against `store` from its call number `i` to its end:
/// the result, and the store as the operation leaves it.
pub open spec fn drive_put(
    step: StepView<PutView, ()>,
    store: Store,
    faults: Seq<Option<EngineError>>,
    i: int,
) -> (Result<(), Error>, Store)
    decreases put_calls_left(step),
{
    match step {
        StepView::Finished(result) => (result, store),
        StepView::Perform { op, action } => {
            let (event, next) = react(store, action, fault_at(faults, i));
            drive_put(put_next(op, event), next, faults, i + 1)
        },
    }
}

/// A whole store of `entry` under `key` against `store`.
pub open spec fn run_put(
    store: Store,
    key: Seq<u8>,
    entry: Streams,
    faults: Seq<Option<EngineError>>,
) -> (Result<(), Error>, Store) {
    drive_put(put_start(key, entry), store, faults, 0)
}

/// A schedule without faults.
pub open spec fn no_faults() -> Seq<Option<EngineError>> {
    Seq::empty()
}

/// A lookup leaves the store as it found it, whatever the engine answers: no
/// entry is changed and no transaction stays open.
pub proof fn lemma_get_leaves_store(store: Store, key: Seq<u8>, faults: Seq<Option<EngineError>>)
    requires
        store.open is None,
    ensures
        run_get(store, key, faults).1 == store,
{
    reveal_with_fuel(drive_get, 4);
}

/// A lookup of a key that is in the store, with no call failing, gives what
/// the stored bytes read as: a hit if they are an archive, a codec failure if
/// they are not, and never a miss.
pub proof fn lemma_get_reads_stored_bytes(store: Store, key: Seq<u8>)
    requires
        store.open is None,
        store.committed.contains_key(key),
    ensures
        run_get(store, key, no_faults()).0 == lookup_outcome(
            EventView::Found(store.committed[key]),
        ),
        run_get(store, key, no_faults()).0 != Ok::<Option<Streams>, Error>(None),
{
    reveal_with_fuel(drive_get, 4);
}

/// A lookup of a key that was never written is a miss, not an error, when no
/// engine call fails; and whatever fails, it is never a hit.
pub proof fn lemma_unwritten_key_misses(
    store: Store,
    key: Seq<u8>,
    faults: Seq<Option<EngineError>>,
)
    requires
        store.open is None,
        !store.committed.contains_key(key),
    ensures
        run_get(store, key, no_faults()).0 == Ok::<Option<Streams>, Error>(None),
        !(run_get(store, key, faults).0 matches Ok(Some(_))),
{
    reveal_with_fuel(drive_get, 4);
}

/// A store that succeeds puts the entry's archive under the key and changes
/// nothing else; the next lookup of the key, with no call failing, is a hit
/// with the entry's own streams.
pub proof fn lemma_hit_after_put(
    store: Store,
    key: Seq<u8>,
    entry: Streams,
    faults: Seq<Option<EngineError>>,
)
    requires
        store.open is None,
        well_formed(entry),
        run_put(store, key, entry, faults).0 is Ok,
    ensures
        run_put(store, key, entry, faults).1 == (Store {
            committed: store.committed.insert(key, encode_archive(entry)),
            open: None,
        }),
        run_get(run_put(store, key, entry, faults).1, key, no_faults()).0 == Ok::<
            Option<Streams>,
            Error,
        >(Some(entry)),
{
    reveal_with_fuel(drive_put, 4);
    let after = run_put(store, key, entry, faults).1;
    lemma_round_trip(entry);
    lemma_get_reads_stored_bytes(after, key);
}

/// A store that fails, at whichever call, leaves the store as it was: nothing
/// of the entry is visible and no transaction stays open. A key that was not
/// there is still a miss.
pub proof fn lemma_failed_put_changes_nothing(
    store: Store,
    key: Seq<u8>,
    entry: Streams,
    faults: Seq<Option<EngineError>>,
)
    requires
        store.open is None,
        run_put(store, key, entry, faults).0 is Err,
    ensures
        run_put(store, key, entry, faults).1 == store,
        !store.committed.contains_key(key) ==> run_get(
            run_put(store, key, entry, faults).1,
            key,
            no_faults(),
        ).0 == Ok::<Option<Streams>, Error>(None),
{
    reveal_with_fuel(drive_put, 4);
    if !store.committed.contains_key(key) {
        lemma_unwritten_key_misses(store, key, no_faults());
    }
}

} // verus!
