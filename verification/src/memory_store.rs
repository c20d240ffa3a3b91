//! The session store that request handlers share: one table behind one lock.

use crate::error::StoreError;
use crate::ident::is_session_id;
use crate::locked::{
    delete_locked, load_locked, save_locked, snapshot_locked, update_locked, update_ttl_locked,
};
use crate::table::{has_distinct_ids, SessionEntry, SessionTable};
use std::collections::HashMap;
use std::sync::{Arc, Mutex, MutexGuard};
use time::Duration;
use vstd::prelude::*;

verus! {

/// std's `Mutex`. Nothing is known of the value inside while the lock is not
/// held.
#[verifier::external_type_specification]
#[verifier::external_body]
#[verifier::reject_recursive_types(T)]
pub struct ExMutex<T: ?Sized>(Mutex<T>);

/// std's `MutexGuard`: the right to use the value inside a `Mutex` until the
/// guard is dropped.
#[verifier::external_type_specification]
#[verifier::external_body]
#[verifier::reject_recursive_types(T)]
pub struct ExMutexGuard<'a, T: ?Sized + 'a>(MutexGuard<'a, T>);

/// `Mutex::new`: a lock around `value`, not held by anyone.
pub assume_specification<T>[ Mutex::<T>::new ](value: T) -> (lock: Mutex<T>)
;

/// `Mutex::lock`: waits until the lock is free and takes it. The guard comes
/// back unless a thread panicked while it held the lock; then the lock is
/// poisoned and nothing comes back. No caller in this library holds a guard
/// of the same lock while it calls this.
#[verifier::external_body]
fn lock_table(sessions: &Mutex<SessionTable>) -> (guard: Option<MutexGuard<'_, SessionTable>>)
{
    sessions.lock().ok()
}

/// `DerefMut::deref_mut` of `MutexGuard`: the table behind the lock, in
/// whatever state the last holder left it.
#[verifier::external_body]
fn guarded_table<'a, 'b>(guard: &'a mut MutexGuard<'b, SessionTable>) -> (table: &'a mut
    SessionTable)
{
    &mut **guard
}

/// The table behind the guard, where the lock gave one.
fn table_behind<'a, 'b>(lock: &'a mut Option<MutexGuard<'b, SessionTable>>) -> (table: Option<
    &'a mut SessionTable,
>)
    ensures
        table is Some <==> *old(lock) is Some,
{
    match lock {
        Some(guard) => Some(guarded_table(guard)),
        None => None,
    }
}

/// A session store in memory. Its clones share one table, and every
/// operation holds the table's only lock from its first look at the table to
/// its last change, so that the operations of all threads take effect one
/// after the other. The store keeps each time-to-live and acts on none: it
/// drops no record on its own, and a load answers for an elapsed one too.
/// Nothing outlives the process.
#[derive(Clone)]
pub struct MemorySessionStore {
    sessions: Arc<Mutex<SessionTable>>,
}

impl MemorySessionStore {
    /// A store around the table that `SessionTable::new` makes, which is
    /// empty. What is behind a lock has no view, so no clause speaks of it.
    pub fn new() -> (store: Self) {
        MemorySessionStore { sessions: Arc::new(Mutex::new(SessionTable::new())) }
    }

    /// The state stored under `id`, or `None` where there is none: what
    /// `load_locked` answers for the outcome of the lock. Absence is no
    /// failure: only a poisoned lock is.
    pub fn load(&self, id: &str) -> (r: Result<Option<HashMap<String, String>>, StoreError>)
        ensures
            r matches Err(e) ==> e == StoreError::StoreUnavailable,
    {
        let mut lock = lock_table(&self.sessions);
        load_locked(table_behind(&mut lock), id)
    }

    /// Makes a fresh identifier, stores the record under it and answers with
    /// the identifier: what `save_locked` answers for the outcome of the
    /// lock. Fails only where the lock is poisoned.
    pub fn save(&self, state: HashMap<String, String>, ttl: &Duration) -> (r: Result<
        String,
        StoreError,
    >)
        ensures
            match r {
                Ok(id) => is_session_id(id@),
                Err(e) => e == StoreError::StoreUnavailable,
            },
    {
        let mut lock = lock_table(&self.sessions);
        save_locked(table_behind(&mut lock), state, ttl)
    }

    /// Replaces the record under `id` in one step under the lock and hands
    /// `id` back: what `update_locked` answers for the outcome of the lock.
    /// Fails with `NotFound` where `id` has no record when the lock is held,
    /// and with `StoreUnavailable` where the lock is poisoned.
    pub fn update(&self, id: String, state: HashMap<String, String>, ttl: &Duration) -> (r: Result<
        String,
        StoreError,
    >)
        ensures
            match r {
                Ok(key) => key == id,
                Err(e) => e == StoreError::NotFound || e == StoreError::StoreUnavailable,
            },
    {
        let mut lock = lock_table(&self.sessions);
        update_locked(table_behind(&mut lock), id, state, ttl)
    }

    /// Renews the time-to-live of the record under `id`: what
    /// `update_ttl_locked` answers for the outcome of the lock. Fails with
    /// `NotFound` where `id` has no record when the lock is held, and with
    /// `StoreUnavailable` where the lock is poisoned.
    pub fn update_ttl(&self, id: &str, ttl: &Duration) -> (r: Result<(), StoreError>)
        ensures
            r matches Err(e) ==> e == StoreError::NotFound || e == StoreError::StoreUnavailable,
    {
        let mut lock = lock_table(&self.sessions);
        update_ttl_locked(table_behind(&mut lock), id, ttl)
    }

    /// Removes the record under `id` if there is one: what `delete_locked`
    /// answers for the outcome of the lock. Fails only where the lock is
    /// poisoned.
    pub fn delete(&self, id: &str) -> (r: Result<(), StoreError>)
        ensures
            r matches Err(e) ==> e == StoreError::StoreUnavailable,
    {
        let mut lock = lock_table(&self.sessions);
        delete_locked(table_behind(&mut lock), id)
    }

    /// A copy of every record as the table holds them at one moment under
    /// the lock, no identifier twice: what `snapshot_locked` answers for the
    /// outcome of the lock. Fails only where the lock is poisoned.
    pub fn snapshot(&self) -> (r: Result<Vec<SessionEntry>, StoreError>)
        ensures
            match r {
                Ok(listing) => has_distinct_ids(listing@),
                Err(e) => e == StoreError::StoreUnavailable,
            },
    {
        let mut lock = lock_table(&self.sessions);
        snapshot_locked(table_behind(&mut lock))
    }
}

impl Default for MemorySessionStore {
    /// A store with an empty table.
    fn default() -> (store: Self) {
        MemorySessionStore::new()
    }
}

} // verus!
