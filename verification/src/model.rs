//! The mathematical model of the session table and of its operations.

use crate::error::StoreError;
use std::collections::HashMap;
use time::Duration;
use vstd::prelude::*;

verus! {

/// `time::Duration`: the table stores such a value and hands it back, and
/// never looks inside it.
#[verifier::external_type_specification]
#[verifier::external_body]
pub struct ExDuration(time::Duration);

/// A session state as a mapping from key text to value text.
pub type StateView = Map<Seq<char>, Seq<char>>;

/// What the table holds under one identifier.
pub struct RecordView {
    pub state: StateView,
    pub ttl: Duration,
}

/// The table as a mapping from identifier text to record.
pub type TableView = Map<Seq<char>, RecordView>;

/// The mapping that a state stands for.
pub open spec fn state_view(state: HashMap<String, String>) -> StateView {
    state.deep_view()
}

/// The state found under `id`, if there is one. The time-to-live plays no part.
pub open spec fn load_of(table: TableView, id: Seq<char>) -> Option<StateView> {
    if table.contains_key(id) {
        Some(table[id].state)
    } else {
        None
    }
}

/// The time-to-live found under `id`, if there is one.
pub open spec fn ttl_of(table: TableView, id: Seq<char>) -> Option<Duration> {
    if table.contains_key(id) {
        Some(table[id].ttl)
    } else {
        None
    }
}

/// The table after a record was stored under `id`.
pub open spec fn save_of(
    table: TableView,
    id: Seq<char>,
    state: StateView,
    ttl: Duration,
) -> TableView {
    table.insert(id, RecordView { state, ttl })
}

/// The table after an update of `id`: the record is replaced where there is
/// one, and nothing is created where there is none.
pub open spec fn update_of(
    table: TableView,
    id: Seq<char>,
    state: StateView,
    ttl: Duration,
) -> TableView {
    if table.contains_key(id) {
        table.insert(id, RecordView { state, ttl })
    } else {
        table
    }
}

/// The table after the time-to-live of `id` was renewed: the state stays.
pub open spec fn touch_of(table: TableView, id: Seq<char>, ttl: Duration) -> TableView {
    if table.contains_key(id) {
        table.insert(id, RecordView { state: table[id].state, ttl })
    } else {
        table
    }
}

/// What an update or a renewal of `id` answers: success where the record
/// exists, `NotFound` where it does not.
pub open spec fn presence_of(table: TableView, id: Seq<char>) -> Result<(), StoreError> {
    if table.contains_key(id) {
        Ok(())
    } else {
        Err(StoreError::NotFound)
    }
}

/// The table after `id` was deleted.
pub open spec fn delete_of(table: TableView, id: Seq<char>) -> TableView {
    table.remove(id)
}

} // verus!
