//! What holds of every table and of every run of the operations, stated
//! over the model that the operations' contracts speak of.

use crate::error::StoreError;
use crate::model::{
    delete_of, load_of, presence_of, save_of, touch_of, ttl_of, update_of, StateView, TableView,
};
use time::Duration;
use vstd::prelude::*;

verus! {

/// A load right after a save under the same identifier finds exactly the
/// state that was saved, whatever the table held before.
pub proof fn law_save_then_load(table: TableView, id: Seq<char>, state: StateView, ttl: Duration)
    ensures
        load_of(save_of(table, id, state, ttl), id) == Some(state),
        ttl_of(save_of(table, id, state, ttl), id) == Some(ttl),
{
}

/// An update of an identifier that a save made succeeds, and a load after it
/// finds the state of the update, no longer that of the save.
pub proof fn law_update_after_save(
    table: TableView,
    id: Seq<char>,
    first: StateView,
    first_ttl: Duration,
    second: StateView,
    second_ttl: Duration,
)
    ensures
        presence_of(save_of(table, id, first, first_ttl), id) is Ok,
        load_of(update_of(save_of(table, id, first, first_ttl), id, second, second_ttl), id) == Some(
            second,
        ),
        ttl_of(update_of(save_of(table, id, first, first_ttl), id, second, second_ttl), id) == Some(
            second_ttl,
        ),
        second != first ==> load_of(
            update_of(save_of(table, id, first, first_ttl), id, second, second_ttl),
            id,
        ) != Some(first),
{
}

/// Renewing a time-to-live changes the state of no identifier: every load
/// answers after it as it did before.
pub proof fn law_update_ttl_keeps_states(
    table: TableView,
    id: Seq<char>,
    ttl: Duration,
    other: Seq<char>,
)
    ensures
        load_of(touch_of(table, id, ttl), other) == load_of(table, other),
        table.contains_key(id) ==> ttl_of(touch_of(table, id, ttl), id) == Some(ttl),
        other != id ==> ttl_of(touch_of(table, id, ttl), other) == ttl_of(table, other),
{
}

/// After a delete the identifier is absent, and a second delete changes
/// nothing more.
pub proof fn law_delete_then_load(table: TableView, id: Seq<char>)
    ensures
        load_of(delete_of(table, id), id) is None,
        delete_of(delete_of(table, id), id) == delete_of(table, id),
{
    assert(delete_of(delete_of(table, id), id) =~= delete_of(table, id));
}

/// A delete leaves every other identifier as it was.
pub proof fn law_delete_keeps_others(table: TableView, id: Seq<char>, other: Seq<char>)
    requires
        other != id,
    ensures
        load_of(delete_of(table, id), other) == load_of(table, other),
        ttl_of(delete_of(table, id), other) == ttl_of(table, other),
{
}

/// An update of an identifier that has no record fails with `NotFound` and
/// leaves the table as it was: no record appears.
pub proof fn law_update_absent(table: TableView, id: Seq<char>, state: StateView, ttl: Duration)
    requires
        !table.contains_key(id),
    ensures
        presence_of(table, id) == Err::<(), StoreError>(StoreError::NotFound),
        update_of(table, id, state, ttl) == table,
        touch_of(table, id, ttl) == table,
        !update_of(table, id, state, ttl).contains_key(id),
{
}

/// Neither an update nor a renewal ever makes or removes a record: the
/// identifiers of the table stay the same.
pub proof fn law_update_keeps_identifiers(
    table: TableView,
    id: Seq<char>,
    state: StateView,
    ttl: Duration,
)
    ensures
        update_of(table, id, state, ttl).dom() == table.dom(),
        touch_of(table, id, ttl).dom() == table.dom(),
{
    assert(update_of(table, id, state, ttl).dom() =~= table.dom());
    assert(touch_of(table, id, ttl).dom() =~= table.dom());
}

/// The table after the updates of `id` with the states of `order`, one after
/// the other, each with the same time-to-live.
pub open spec fn updates_of(
    table: TableView,
    id: Seq<char>,
    order: Seq<StateView>,
    ttl: Duration,
) -> TableView
    decreases order.len(),
{
    if order.len() == 0 {
        table
    } else {
        update_of(updates_of(table, id, order.drop_last(), ttl), id, order.last(), ttl)
    }
}

/// Updates of one existing identifier, taken in whatever order the lock let
/// them in: each of them finds the record and succeeds, and a load after the
/// last finds the state of one of them, whole: that of the last.
pub proof fn law_updates_serialize(
    table: TableView,
    id: Seq<char>,
    order: Seq<StateView>,
    ttl: Duration,
)
    requires
        table.contains_key(id),
        order.len() > 0,
    ensures
        forall|n: int|
            0 <= n < order.len() ==> presence_of(
                #[trigger] updates_of(table, id, order.take(n), ttl),
                id,
            ) is Ok,
        load_of(updates_of(table, id, order, ttl), id) == Some(order.last()),
        exists|i: int|
            0 <= i < order.len() && load_of(updates_of(table, id, order, ttl), id) == Some(
                #[trigger] order[i],
            ),
        updates_of(table, id, order, ttl).dom() == table.dom(),
{
    assert forall|n: int| 0 <= n <= order.len() implies (#[trigger] updates_of(
        table,
        id,
        order.take(n),
        ttl,
    )).dom() == table.dom() by {
        lemma_updates_keep_identifiers(table, id, order.take(n), ttl);
    }
    assert(order.take(order.len() as int) =~= order);
    assert(load_of(updates_of(table, id, order, ttl), id) == Some(order[order.len() - 1]));
}

proof fn lemma_updates_keep_identifiers(
    table: TableView,
    id: Seq<char>,
    order: Seq<StateView>,
    ttl: Duration,
)
    ensures
        updates_of(table, id, order, ttl).dom() == table.dom(),
    decreases order.len(),
{
    if order.len() > 0 {
        lemma_updates_keep_identifiers(table, id, order.drop_last(), ttl);
        law_update_keeps_identifiers(
            updates_of(table, id, order.drop_last(), ttl),
            id,
            order.last(),
            ttl,
        );
    }
}

/// Two saves of the same state under two different identifiers leave two
/// records, each loadable on its own. The identifiers come from a random
/// source, so that they differ is asked here, not promised.
pub proof fn law_two_saves(
    table: TableView,
    first_id: Seq<char>,
    second_id: Seq<char>,
    state: StateView,
    ttl: Duration,
)
    requires
        first_id != second_id,
    ensures
        load_of(save_of(save_of(table, first_id, state, ttl), second_id, state, ttl), first_id) == Some(
            state,
        ),
        load_of(save_of(save_of(table, first_id, state, ttl), second_id, state, ttl), second_id)
            == Some(state),
        load_of(
            delete_of(save_of(save_of(table, first_id, state, ttl), second_id, state, ttl), second_id),
            first_id,
        ) == Some(state),
{
}

} // verus!
