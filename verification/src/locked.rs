//! What each operation of the store answers once the lock has given its
//! outcome: the table, or nothing where the lock is poisoned.

use crate::error::StoreError;
use crate::ident::is_session_id;
use crate::model::{delete_of, load_of, presence_of, save_of, state_view, touch_of, update_of};
use crate::table::{is_listing_of, SessionEntry, SessionTable};
use std::collections::HashMap;
use time::Duration;
use vstd::prelude::*;

verus! {

/// Loads from the table that the lock gave and leaves it as it is. Without
/// a table the answer is `StoreUnavailable`.
pub fn load_locked(table: Option<&mut SessionTable>, id: &str) -> (r: Result<
    Option<HashMap<String, String>>,
    StoreError,
>)
    ensures
        match table {
            Some(t) => final(t)@ == t@ && match r {
                Ok(Some(state)) => load_of(t@, id@) == Some(state_view(state)),
                Ok(None) => load_of(t@, id@) is None,
                Err(_) => false,
            },
            None => r matches Err(e) && e == StoreError::StoreUnavailable,
        },
{
    match table {
        Some(t) => Ok(t.load(id)),
        None => Err(StoreError::StoreUnavailable),
    }
}

/// Saves into the table that the lock gave, under a fresh identifier.
/// Without a table the answer is `StoreUnavailable`.
pub fn save_locked(table: Option<&mut SessionTable>, state: HashMap<String, String>, ttl: &Duration) -> (r:
    Result<String, StoreError>)
    ensures
        match table {
            Some(t) => match r {
                Ok(id) => is_session_id(id@) && final(t)@ == save_of(
                    t@,
                    id@,
                    state_view(state),
                    *ttl,
                ),
                Err(_) => false,
            },
            None => r == Err::<String, StoreError>(StoreError::StoreUnavailable),
        },
{
    match table {
        Some(t) => t.save(state, ttl),
        None => Err(StoreError::StoreUnavailable),
    }
}

/// Updates the record under `id` in the table that the lock gave. Without a
/// table the answer is `StoreUnavailable`.
pub fn update_locked(
    table: Option<&mut SessionTable>,
    id: String,
    state: HashMap<String, String>,
    ttl: &Duration,
) -> (r: Result<String, StoreError>)
    ensures
        match table {
            Some(t) => final(t)@ == update_of(t@, id@, state_view(state), *ttl) && match r {
                Ok(key) => presence_of(t@, id@) is Ok && key == id,
                Err(e) => presence_of(t@, id@) == Err::<(), StoreError>(e),
            },
            None => r == Err::<String, StoreError>(StoreError::StoreUnavailable),
        },
{
    match table {
        Some(t) => t.update(id, state, ttl),
        None => Err(StoreError::StoreUnavailable),
    }
}

/// Renews the time-to-live of `id` in the table that the lock gave.
/// Without a table the answer is `StoreUnavailable`.
pub fn update_ttl_locked(table: Option<&mut SessionTable>, id: &str, ttl: &Duration) -> (r: Result<
    (),
    StoreError,
>)
    ensures
        match table {
            Some(t) => final(t)@ == touch_of(t@, id@, *ttl) && r == presence_of(t@, id@),
            None => r == Err::<(), StoreError>(StoreError::StoreUnavailable),
        },
{
    match table {
        Some(t) => t.update_ttl(id, ttl),
        None => Err(StoreError::StoreUnavailable),
    }
}

/// Deletes `id` from the table that the lock gave, which always succeeds.
/// Without a table the answer is `StoreUnavailable`.
pub fn delete_locked(table: Option<&mut SessionTable>, id: &str) -> (r: Result<(), StoreError>)
    ensures
        match table {
            Some(t) => final(t)@ == delete_of(t@, id@) && r == Ok::<(), StoreError>(()),
            None => r == Err::<(), StoreError>(StoreError::StoreUnavailable),
        },
{
    match table {
        Some(t) => {
            t.delete(id);
            Ok(())
        },
        None => Err(StoreError::StoreUnavailable),
    }
}

/// Lists the table that the lock gave and leaves it as it is. Without a
/// table the answer is `StoreUnavailable`.
pub fn snapshot_locked(table: Option<&mut SessionTable>) -> (r: Result<Vec<SessionEntry>, StoreError>)
    ensures
        match table {
            Some(t) => final(t)@ == t@ && match r {
                Ok(listing) => is_listing_of(listing@, t@) && listing@.len() == t@.dom().len(),
                Err(_) => false,
            },
            None => r matches Err(e) && e == StoreError::StoreUnavailable,
        },
{
    match table {
        Some(t) => Ok(t.entries()),
        None => Err(StoreError::StoreUnavailable),
    }
}

} // verus!
