//! The session table as a sequential data structure.

use crate::error::StoreError;
use crate::ident::{encode_key, is_session_id, key_fits, lemma_session_id_fits, new_session_id};
use crate::model::{
    delete_of, load_of, presence_of, save_of, state_view, touch_of, ttl_of, update_of, RecordView,
    TableView,
};
use std::collections::HashMap;
use time::Duration;
use vstd::prelude::*;
use vstd::utf8::{encode_utf8, encode_utf8_decode_utf8};

verus! {

/// One record of the table together with its identifier.
#[derive(Debug)]
pub struct SessionEntry {
    pub id: String,
    pub state: HashMap<String, String>,
    pub ttl: Duration,
}

/// The record that an entry carries.
pub open spec fn entry_view(entry: SessionEntry) -> RecordView {
    RecordView { state: state_view(entry.state), ttl: entry.ttl }
}

/// Whether two strings hold the same text, compared byte by byte.
pub fn same_text(a: &str, b: &str) -> (r: bool)
    ensures
        r == (a@ == b@),
{
    let x = a.as_bytes();
    let y = b.as_bytes();
    if x.len() != y.len() {
        return false;
    }
    let mut i: usize = 0;
    while i < x.len()
        invariant
            i <= x.len(),
            x.len() == y.len(),
            x@ == encode_utf8(a@),
            y@ == encode_utf8(b@),
            forall|j: int| 0 <= j < i ==> x@[j] == y@[j],
        decreases x.len() - i,
    {
        if x[i] != y[i] {
            return false;
        }
        i += 1;
    }
    proof {
        assert(x@ =~= y@);
        encode_utf8_decode_utf8(a@);
        encode_utf8_decode_utf8(b@);
    }
    true
}

/// A copy of a state that stands for the same mapping.
pub fn copy_state(state: &HashMap<String, String>) -> (r: HashMap<String, String>)
    ensures
        state_view(r) == state_view(*state),
{
    let r = state.clone();
    proof {
        reveal(vstd::std_specs::hash::hash_map_deep_view_impl);
        assert(state_view(r) =~= state_view(*state));
    }
    r
}

spec fn holds_id(entries: Seq<SessionEntry>, id: Seq<char>) -> bool {
    exists|i: int| 0 <= i < entries.len() && (#[trigger] entries[i]).id@ == id
}

spec fn index_of(entries: Seq<SessionEntry>, id: Seq<char>) -> int {
    choose|i: int| 0 <= i < entries.len() && (#[trigger] entries[i]).id@ == id
}

spec fn distinct_ids(entries: Seq<SessionEntry>) -> bool {
    forall|i: int, j: int|
        0 <= i < j < entries.len() ==> (#[trigger] entries[i]).id@ != (#[trigger] entries[j]).id@
}

spec fn table_of(entries: Seq<SessionEntry>) -> TableView {
    Map::new(
        |id: Seq<char>| holds_id(entries, id),
        |id: Seq<char>| entry_view(entries[index_of(entries, id)]),
    )
}

proof fn lemma_entry_in_table(entries: Seq<SessionEntry>, i: int)
    requires
        distinct_ids(entries),
        0 <= i < entries.len(),
    ensures
        table_of(entries).contains_key(entries[i].id@),
        table_of(entries)[entries[i].id@] == entry_view(entries[i]),
{
    let id = entries[i].id@;
    assert(holds_id(entries, id));
    let k = index_of(entries, id);
    assert(0 <= k < entries.len() && entries[k].id@ == id);
    assert(k == i);
}

proof fn lemma_push(entries: Seq<SessionEntry>, entry: SessionEntry)
    requires
        distinct_ids(entries),
        !holds_id(entries, entry.id@),
    ensures
        distinct_ids(entries.push(entry)),
        table_of(entries.push(entry)) == table_of(entries).insert(entry.id@, entry_view(entry)),
{
    let after = entries.push(entry);
    assert forall|i: int, j: int| 0 <= i < j < after.len() implies (#[trigger] after[i]).id@ != (
    #[trigger] after[j]).id@ by {
        if j == entries.len() {
            assert(entries[i].id@ != entry.id@);
        } else {
            assert(entries[i].id@ != entries[j].id@);
        }
    }
    lemma_same_table(
        after,
        table_of(entries).insert(entry.id@, entry_view(entry)),
        entries,
        entries.len() as int,
    );
}

proof fn lemma_update(entries: Seq<SessionEntry>, i: int, entry: SessionEntry)
    requires
        distinct_ids(entries),
        0 <= i < entries.len(),
        entry.id@ == entries[i].id@,
    ensures
        distinct_ids(entries.update(i, entry)),
        table_of(entries.update(i, entry)) == table_of(entries).insert(entry.id@, entry_view(entry)),
{
    let after = entries.update(i, entry);
    assert forall|a: int, b: int| 0 <= a < b < after.len() implies (#[trigger] after[a]).id@ != (
    #[trigger] after[b]).id@ by {
        assert(entries[a].id@ != entries[b].id@);
    }
    lemma_same_table(after, table_of(entries).insert(entry.id@, entry_view(entry)), entries, i);
}

/// `after` differs from `before` at most at position `at`, and `expected` is
/// the table of `before` with the entry at `at` put in.
proof fn lemma_same_table(
    after: Seq<SessionEntry>,
    expected: TableView,
    before: Seq<SessionEntry>,
    at: int,
)
    requires
        distinct_ids(before),
        distinct_ids(after),
        0 <= at < after.len(),
        before.len() <= after.len() <= before.len() + 1,
        at < before.len() ==> after.len() == before.len(),
        forall|k: int| 0 <= k < before.len() && k != at ==> #[trigger] after[k] == before[k],
        at < before.len() ==> before[at].id@ == after[at].id@,
        expected == table_of(before).insert(after[at].id@, entry_view(after[at])),
    ensures
        table_of(after) == expected,
{
    let got = table_of(after);
    assert forall|id: Seq<char>| got.contains_key(id) <==> expected.contains_key(id) by {
        if got.contains_key(id) {
            let k = index_of(after, id);
            if k != at {
                assert(before[k].id@ == id);
            }
        }
        if expected.contains_key(id) && id != after[at].id@ {
            let k = index_of(before, id);
            assert(k != at);
            assert(after[k].id@ == id);
        }
        if id == after[at].id@ {
            assert(after[at].id@ == id);
        }
    }
    assert forall|id: Seq<char>| got.contains_key(id) implies got[id] == expected[id] by {
        let k = index_of(after, id);
        lemma_entry_in_table(after, k);
        if k != at {
            assert(before[k] == after[k]);
            lemma_entry_in_table(before, k);
        }
    }
    assert(got =~= expected);
}

proof fn lemma_remove(entries: Seq<SessionEntry>, i: int)
    requires
        distinct_ids(entries),
        0 <= i < entries.len(),
    ensures
        distinct_ids(entries.remove(i)),
        table_of(entries.remove(i)) == table_of(entries).remove(entries[i].id@),
{
    let after = entries.remove(i);
    let gone = entries[i].id@;
    assert forall|a: int, b: int| 0 <= a < b < after.len() implies (#[trigger] after[a]).id@ != (
    #[trigger] after[b]).id@ by {
        let a0 = if a < i { a } else { a + 1 };
        let b0 = if b < i { b } else { b + 1 };
        assert(after[a] == entries[a0] && after[b] == entries[b0]);
        assert(entries[a0].id@ != entries[b0].id@);
    }
    let got = table_of(after);
    let expected = table_of(entries).remove(gone);
    assert forall|id: Seq<char>| got.contains_key(id) <==> expected.contains_key(id) by {
        if got.contains_key(id) {
            let k = index_of(after, id);
            let k0 = if k < i { k } else { k + 1 };
            assert(after[k] == entries[k0]);
            assert(entries[k0].id@ == id);
            if id == gone {
                assert(entries[i].id@ == entries[k0].id@);
                if k0 < i {
                    assert(entries[k0].id@ != entries[i].id@);
                } else {
                    assert(entries[i].id@ != entries[k0].id@);
                }
            }
        }
        if expected.contains_key(id) {
            let k0 = index_of(entries, id);
            assert(k0 != i);
            let k = if k0 < i { k0 } else { k0 - 1 };
            assert(after[k] == entries[k0]);
            assert(after[k].id@ == id);
        }
    }
    assert forall|id: Seq<char>| got.contains_key(id) implies got[id] == expected[id] by {
        let k = index_of(after, id);
        let k0 = if k < i { k } else { k + 1 };
        assert(after[k] == entries[k0]);
        lemma_entry_in_table(after, k);
        lemma_entry_in_table(entries, k0);
    }
    assert(got =~= expected);
}

proof fn lemma_len(entries: Seq<SessionEntry>)
    requires
        distinct_ids(entries),
    ensures
        table_of(entries).dom().finite(),
        table_of(entries).dom().len() == entries.len(),
    decreases entries.len(),
{
    if entries.len() == 0 {
        assert(table_of(entries).dom() =~= Set::<Seq<char>>::empty());
    } else {
        let front = entries.drop_last();
        let last = entries.last();
        assert forall|i: int, j: int| 0 <= i < j < front.len() implies (#[trigger] front[i]).id@ != (
        #[trigger] front[j]).id@ by {
            assert(entries[i].id@ != entries[j].id@);
        }
        lemma_len(front);
        if holds_id(front, last.id@) {
            let k = index_of(front, last.id@);
            assert(entries[k].id@ != entries[entries.len() - 1].id@);
        }
        lemma_push(front, last);
        assert(front.push(last) =~= entries);
        assert(table_of(entries).dom() =~= table_of(front).dom().insert(last.id@));
    }
}

/// Whether no identifier comes twice in `listing`.
pub open spec fn has_distinct_ids(listing: Seq<SessionEntry>) -> bool {
    forall|i: int, j: int|
        0 <= i < j < listing.len() ==> (#[trigger] listing[i]).id@ != (#[trigger] listing[j]).id@
}

/// Whether `listing` shows `table` in full: each of its entries is a record
/// of the table, no identifier comes twice, and no record is left out.
pub open spec fn is_listing_of(listing: Seq<SessionEntry>, table: TableView) -> bool {
    &&& forall|i: int|
        0 <= i < listing.len() ==> table.contains_key((#[trigger] listing[i]).id@) && table[listing[i].id@]
            == entry_view(listing[i])
    &&& has_distinct_ids(listing)
    &&& forall|id: Seq<char>|
        table.contains_key(id) ==> exists|i: int|
            0 <= i < listing.len() && (#[trigger] listing[i]).id@ == id
}

/// The position of the entry that carries `id`, if there is one.
fn find(entries: &Vec<SessionEntry>, id: &str) -> (r: Option<usize>)
    ensures
        match r {
            Some(i) => i < entries.len() && entries[i as int].id@ == id@,
            None => !holds_id(entries@, id@),
        },
{
    let mut i: usize = 0;
    while i < entries.len()
        invariant
            i <= entries.len(),
            forall|k: int| 0 <= k < i ==> (#[trigger] entries[k]).id@ != id@,
        decreases entries.len() - i,
    {
        if same_text(entries[i].id.as_str(), id) {
            return Some(i);
        }
        i += 1;
    }
    None
}

/// The table of session records: each identifier occurs once.
pub struct SessionTable {
    entries: Vec<SessionEntry>,
}

impl View for SessionTable {
    type V = TableView;

    closed spec fn view(&self) -> TableView {
        table_of(self.entries@)
    }
}

impl SessionTable {
    #[verifier::type_invariant]
    spec fn well_formed(self) -> bool {
        distinct_ids(self.entries@)
    }

    /// An empty table.
    pub fn new() -> (table: Self)
        ensures
            table@ == Map::<Seq<char>, RecordView>::empty(),
    {
        let table = SessionTable { entries: Vec::new() };
        assert(table@ =~= Map::<Seq<char>, RecordView>::empty());
        table
    }

    /// Moves the entries out and leaves the table empty, so that they can be
    /// changed before they are put back.
    fn take_entries(&mut self) -> (entries: Vec<SessionEntry>)
        ensures
            entries@ == old(self).entries@,
    {
        let mut entries: Vec<SessionEntry> = Vec::new();
        std::mem::swap(&mut entries, &mut self.entries);
        entries
    }

    /// The state stored under `id`, or `None` where there is none. The table
    /// stays as it is, and the time-to-live is not consulted.
    pub fn load(&self, id: &str) -> (r: Option<HashMap<String, String>>)
        ensures
            match r {
                Some(state) => load_of(self@, id@) == Some(state_view(state)),
                None => load_of(self@, id@) is None,
            },
    {
        proof {
            use_type_invariant(self);
        }
        match find(&self.entries, id) {
            Some(i) => {
                proof {
                    lemma_entry_in_table(self.entries@, i as int);
                }
                Some(copy_state(&self.entries[i].state))
            },
            None => None,
        }
    }

    /// Makes a fresh identifier, stores the record under it and answers with
    /// the identifier. An identifier of this shape always fits the
    /// session-key format, so this never fails. The identifier comes from a
    /// random source and is not looked up first: in the unlikely case that
    /// it is already in use, its record is replaced.
    pub fn save(&mut self, state: HashMap<String, String>, ttl: &Duration) -> (r: Result<
        String,
        StoreError,
    >)
        ensures
            r matches Ok(id) && is_session_id(id@) && final(self)@ == save_of(
                old(self)@,
                id@,
                state_view(state),
                *ttl,
            ),
    {
        let id = new_session_id();
        proof {
            lemma_session_id_fits(id@);
        }
        self.save_as(id, state, ttl)
    }

    /// Stores a record under `id`, in place of the one that `id` had if it
    /// had one, and answers with `id` encoded as a session key. The record is
    /// stored whether or not the key can be encoded.
    pub fn save_as(&mut self, id: String, state: HashMap<String, String>, ttl: &Duration) -> (r: Result<
        String,
        StoreError,
    >)
        ensures
            final(self)@ == save_of(old(self)@, id@, state_view(state), *ttl),
            match r {
                Ok(key) => key_fits(id@) && key@ == id@,
                Err(e) => !key_fits(id@) && e == StoreError::KeyEncoding,
            },
    {
        proof {
            use_type_invariant(&*self);
        }
        let entry = SessionEntry { id: id.clone(), state, ttl: *ttl };
        let mut entries = self.take_entries();
        match find(&entries, id.as_str()) {
            Some(i) => {
                proof {
                    lemma_update(entries@, i as int, entry);
                }
                entries.set(i, entry);
            },
            None => {
                proof {
                    lemma_push(entries@, entry);
                }
                entries.push(entry);
            },
        }
        self.entries = entries;
        match encode_key(id) {
            Some(key) => Ok(key),
            None => Err(StoreError::KeyEncoding),
        }
    }

    /// Renews the time-to-live of the record under `id` and leaves its state
    /// alone. Where `id` has no record, nothing changes and the answer is
    /// `NotFound`.
    pub fn update_ttl(&mut self, id: &str, ttl: &Duration) -> (r: Result<(), StoreError>)
        ensures
            final(self)@ == touch_of(old(self)@, id@, *ttl),
            r == presence_of(old(self)@, id@),
    {
        proof {
            use_type_invariant(&*self);
        }
        let mut entries = self.take_entries();
        let r = match find(&entries, id) {
            Some(i) => {
                proof {
                    lemma_entry_in_table(entries@, i as int);
                    let renewed = SessionEntry {
                        id: entries[i as int].id,
                        state: entries[i as int].state,
                        ttl: *ttl,
                    };
                    lemma_update(entries@, i as int, renewed);
                }
                entries[i].ttl = *ttl;
                Ok(())
            },
            None => Err(StoreError::NotFound),
        };
        self.entries = entries;
        r
    }

    /// Replaces the record under `id` and hands `id` back. Where `id` has no
    /// record, none is made: nothing changes and the answer is `NotFound`.
    pub fn update(&mut self, id: String, state: HashMap<String, String>, ttl: &Duration) -> (r: Result<
        String,
        StoreError,
    >)
        ensures
            final(self)@ == update_of(old(self)@, id@, state_view(state), *ttl),
            match r {
                Ok(key) => presence_of(old(self)@, id@) is Ok && key == id,
                Err(e) => presence_of(old(self)@, id@) == Err::<(), StoreError>(e),
            },
    {
        proof {
            use_type_invariant(&*self);
        }
        let mut entries = self.take_entries();
        let found = find(&entries, id.as_str());
        let r = match found {
            Some(i) => {
                let entry = SessionEntry { id: id.clone(), state, ttl: *ttl };
                proof {
                    lemma_entry_in_table(entries@, i as int);
                    lemma_update(entries@, i as int, entry);
                }
                entries.set(i, entry);
                Ok(id)
            },
            None => Err(StoreError::NotFound),
        };
        self.entries = entries;
        r
    }

    /// Removes the record under `id`. Where there is none, nothing changes.
    pub fn delete(&mut self, id: &str)
        ensures
            final(self)@ == delete_of(old(self)@, id@),
    {
        proof {
            use_type_invariant(&*self);
        }
        let mut entries = self.take_entries();
        match find(&entries, id) {
            Some(i) => {
                proof {
                    lemma_remove(entries@, i as int);
                }
                let _ = entries.remove(i);
            },
            None => {
                assert(table_of(entries@).remove(id@) =~= table_of(entries@));
            },
        }
        self.entries = entries;
    }

    /// The time-to-live stored under `id`, or `None` where there is no record.
    pub fn ttl(&self, id: &str) -> (r: Option<Duration>)
        ensures
            r == ttl_of(self@, id@),
    {
        proof {
            use_type_invariant(self);
        }
        match find(&self.entries, id) {
            Some(i) => {
                proof {
                    lemma_entry_in_table(self.entries@, i as int);
                }
                Some(self.entries[i].ttl)
            },
            None => None,
        }
    }

    /// Whether `id` has a record.
    pub fn contains(&self, id: &str) -> (r: bool)
        ensures
            r == self@.contains_key(id@),
    {
        proof {
            use_type_invariant(self);
        }
        match find(&self.entries, id) {
            Some(i) => {
                proof {
                    lemma_entry_in_table(self.entries@, i as int);
                }
                true
            },
            None => false,
        }
    }

    /// The number of records.
    pub fn len(&self) -> (n: usize)
        ensures
            self@.dom().finite(),
            n == self@.dom().len(),
    {
        proof {
            use_type_invariant(self);
            lemma_len(self.entries@);
        }
        self.entries.len()
    }

    /// A copy of every record with its identifier, each once.
    pub fn entries(&self) -> (listing: Vec<SessionEntry>)
        ensures
            is_listing_of(listing@, self@),
            listing@.len() == self@.dom().len(),
    {
        proof {
            use_type_invariant(self);
            lemma_len(self.entries@);
        }
        let mut listing: Vec<SessionEntry> = Vec::new();
        let mut i: usize = 0;
        while i < self.entries.len()
            invariant
                i <= self.entries.len(),
                listing@.len() == i,
                forall|k: int|
                    0 <= k < i ==> (#[trigger] listing@[k]).id@ == self.entries@[k].id@ && entry_view(
                        listing@[k],
                    ) == entry_view(self.entries@[k]),
            decreases self.entries.len() - i,
        {
            let entry = &self.entries[i];
            listing.push(
                SessionEntry {
                    id: entry.id.clone(),
                    state: copy_state(&entry.state),
                    ttl: entry.ttl,
                },
            );
            i += 1;
        }
        proof {
            let table = self@;
            assert forall|k: int| 0 <= k < listing@.len() implies table.contains_key(
                (#[trigger] listing@[k]).id@,
            ) && table[listing@[k].id@] == entry_view(listing@[k]) by {
                lemma_entry_in_table(self.entries@, k);
            }
            assert forall|a: int, b: int| 0 <= a < b < listing@.len() implies (#[trigger] listing@[a]).id@
                != (#[trigger] listing@[b]).id@ by {
                assert(self.entries@[a].id@ != self.entries@[b].id@);
            }
            assert forall|id: Seq<char>| table.contains_key(id) implies exists|k: int|
                0 <= k < listing@.len() && (#[trigger] listing@[k]).id@ == id by {
                let k = index_of(self.entries@, id);
                assert(listing@[k].id@ == id);
            }
        }
        listing
    }
}

} // verus!
