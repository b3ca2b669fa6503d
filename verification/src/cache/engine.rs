//! The boundary between a backend's decisions and its storage engine.
//!
//! An operation on the store is a short exchange. The operation names the next
//! engine call as an [`Action`]; the caller makes the call and hands back what
//! the engine answered as an [`Event`]; the operation then names the next call
//! or ends with its result.

use vstd::prelude::*;
use crate::errors::{EngineError, Error};

verus! {

/// One call to the storage engine.
#[derive(Debug, Clone, PartialEq, Eq)]
pub enum Action {
    /// Open the environment at `path`, creating it if need be, with a map of
    /// `map_size` bytes.
    OpenEnvironment { path: String, map_size: usize },
    /// Open the environment's unnamed database.
    OpenDatabase,
    /// Begin a read-only transaction.
    BeginRead,
    /// Look `key` up in the open transaction.
    Lookup { key: Vec<u8> },
    /// Begin a read-write transaction.
    BeginWrite,
    /// Store `value` under `key` in the open transaction.
    Write { key: Vec<u8>, value: Vec<u8> },
    /// Commit the open transaction.
    Commit,
    /// Abort the open transaction.
    Abort,
}

/// An engine call as the contracts see it.
pub enum ActionView {
    OpenEnvironment { path: Seq<char>, map_size: usize },
    OpenDatabase,
    BeginRead,
    Lookup { key: Seq<u8> },
    BeginWrite,
    Write { key: Seq<u8>, value: Seq<u8> },
    Commit,
    Abort,
}

impl View for Action {
    type V = ActionView;

    open spec fn view(&self) -> ActionView {
        match self {
            Action::OpenEnvironment { path, map_size } => ActionView::OpenEnvironment {
                path: path@,
                map_size: *map_size,
            },
            Action::OpenDatabase => ActionView::OpenDatabase,
            Action::BeginRead => ActionView::BeginRead,
            Action::Lookup { key } => ActionView::Lookup { key: key@ },
            Action::BeginWrite => ActionView::BeginWrite,
            Action::Write { key, value } => ActionView::Write { key: key@, value: value@ },
            Action::Commit => ActionView::Commit,
            Action::Abort => ActionView::Abort,
        }
    }
}

/// What the engine answered to a call.
#[derive(Debug, Clone, PartialEq, Eq)]
pub enum Event {
    /// The call succeeded and has nothing to hand back.
    Done,
    /// The lookup found these bytes.
    Found(Vec<u8>),
    /// The call failed.
    Failed(EngineError),
}

/// An engine's answer as the contracts see it.
pub enum EventView {
    Done,
    Found(Seq<u8>),
    Failed(EngineError),
}

impl View for Event {
    type V = EventView;

    open spec fn view(&self) -> EventView {
        match self {
            Event::Done => EventView::Done,
            Event::Found(value) => EventView::Found(value@),
            Event::Failed(error) => EventView::Failed(*error),
        }
    }
}

/// Where an operation stands after a step.
#[derive(Debug)]
pub enum Step<O, T> {
    /// Make the call `action` and hand the engine's answer to `op`.
    Perform { op: O, action: Action },
    /// The operation is over, with this result.
    Finished(Result<T, Error>),
}

/// A step as the contracts see it.
pub enum StepView<O, T> {
    Perform { op: O, action: ActionView },
    Finished(Result<T, Error>),
}

} // verus!
