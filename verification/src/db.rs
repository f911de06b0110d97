//! The tables of the local repository, the notes table and the key/value
//! table, with the commands that read and change them.
//!
//! Every command runs to completion on the tables it is given. A command that
//! makes several writes, such as a pulled batch with its cursor, is one step.

use vstd::prelude::*;
use vstd::string::*;
use crate::text::{
    lemma_text_before_irreflexive, lemma_text_before_transitive, str_after, str_eq, str_to_string,
    text_after, text_at_most, text_before,
};

verus! {

/// Key of the cursor: the timestamp of the last server change that was applied.
pub const KEY_LAST_SYNCED_AT: &'static str = "last_synced_at";

/// Key of the account's encryption salt.
pub const KEY_ENCRYPTION_SALT: &'static str = "encryption_salt";

/// The cursor of a repository that has never pulled.
pub const EPOCH_CURSOR: &'static str = "1970-01-01T00:00:00Z";

/// A note as stored locally and as sent on the wire.
///
/// `content` is plaintext locally and ciphertext on the wire; `is_encrypted`
/// says which of the two this value holds. `updated_at` is an RFC 3339 UTC
/// timestamp. The three flags are 0 or 1.
#[derive(Debug, Clone)]
pub struct Note {
    pub id: String,
    pub content: String,
    pub updated_at: String,
    pub is_deleted: i32,
    pub is_synced: i32,
    pub is_encrypted: i32,
}

/// The mathematical value of a note.
pub struct NoteView {
    pub id: Seq<char>,
    pub content: Seq<char>,
    pub updated_at: Seq<char>,
    pub is_deleted: i32,
    pub is_synced: i32,
    pub is_encrypted: i32,
}

impl View for Note {
    type V = NoteView;

    open spec fn view(&self) -> NoteView {
        NoteView {
            id: self.id@,
            content: self.content@,
            updated_at: self.updated_at@,
            is_deleted: self.is_deleted,
            is_synced: self.is_synced,
            is_encrypted: self.is_encrypted,
        }
    }
}

impl NoteView {
    /// A note that is not tombstoned.
    pub open spec fn is_live(self) -> bool {
        self.is_deleted == 0
    }

    /// A note whose latest local change the server has not acknowledged.
    pub open spec fn is_unsynced(self) -> bool {
        self.is_synced == 0
    }

    /// The note after a change of encryption mode: a live note gets the flag
    /// and becomes unsynced, a tombstone stays as it is.
    pub open spec fn with_encrypted_status(self, flag: i32) -> NoteView {
        if self.is_live() {
            NoteView { is_encrypted: flag, is_synced: 0, ..self }
        } else {
            self
        }
    }
}

impl Note {
    /// A copy of this note with the same value.
    pub fn copy(&self) -> (r: Note)
        ensures
            r@ == self@,
    {
        Note {
            id: self.id.clone(),
            content: self.content.clone(),
            updated_at: self.updated_at.clone(),
            is_deleted: self.is_deleted,
            is_synced: self.is_synced,
            is_encrypted: self.is_encrypted,
        }
    }
}

/// The mathematical value of a repository: both tables as maps.
pub struct StoreState {
    /// The notes table, keyed by note id.
    pub notes: Map<Seq<char>, NoteView>,
    /// The key/value table.
    pub kv: Map<Seq<char>, Seq<char>>,
}

impl StoreState {
    /// Every row is filed under its own id.
    pub open spec fn well_keyed(self) -> bool {
        forall|id: Seq<char>| #[trigger]
            self.notes.contains_key(id) ==> self.notes[id].id == id
    }

    /// The cursor: the value under `last_synced_at`, or the epoch where none is stored.
    pub open spec fn cursor(self) -> Seq<char> {
        if self.kv.contains_key(KEY_LAST_SYNCED_AT@) {
            self.kv[KEY_LAST_SYNCED_AT@]
        } else {
            EPOCH_CURSOR@
        }
    }

    /// SaveNote: the row under `id` becomes a live, unsynced note with the
    /// given content, stamped `now`.
    pub open spec fn save_note(
        self,
        id: Seq<char>,
        content: Seq<char>,
        is_encrypted: bool,
        now: Seq<char>,
    ) -> StoreState {
        StoreState {
            notes: self.notes.insert(
                id,
                NoteView {
                    id,
                    content,
                    updated_at: now,
                    is_deleted: 0,
                    is_synced: 0,
                    is_encrypted: if is_encrypted {
                        1
                    } else {
                        0
                    },
                },
            ),
            kv: self.kv,
        }
    }

    /// DeleteNote: the row under `id`, if there is one, becomes an unsynced
    /// tombstone stamped `now`. Its content stays.
    pub open spec fn delete_note(self, id: Seq<char>, now: Seq<char>) -> StoreState {
        if self.notes.contains_key(id) {
            StoreState {
                notes: self.notes.insert(
                    id,
                    NoteView { updated_at: now, is_deleted: 1, is_synced: 0, ..self.notes[id] },
                ),
                kv: self.kv,
            }
        } else {
            self
        }
    }

    /// MarkAsSynced: the row under `id`, if there is one, becomes synced.
    pub open spec fn mark_as_synced(self, id: Seq<char>) -> StoreState {
        if self.notes.contains_key(id) {
            StoreState {
                notes: self.notes.insert(id, NoteView { is_synced: 1, ..self.notes[id] }),
                kv: self.kv,
            }
        } else {
            self
        }
    }

    /// Whether an incoming note wins over what is stored: there is no row under
    /// its id, or its timestamp is strictly later than the stored one.
    pub open spec fn accepts(self, incoming: NoteView) -> bool {
        !self.notes.contains_key(incoming.id) || text_after(
            incoming.updated_at,
            self.notes[incoming.id].updated_at,
        )
    }

    /// One pulled note applied: where it wins it replaces the row, marked synced.
    pub open spec fn upsert_pulled(self, incoming: NoteView) -> StoreState {
        if self.accepts(incoming) {
            StoreState {
                notes: self.notes.insert(incoming.id, NoteView { is_synced: 1, ..incoming }),
                kv: self.kv,
            }
        } else {
            self
        }
    }

    /// A batch of pulled notes applied one after the other, first to last.
    pub open spec fn upsert_batch(self, batch: Seq<NoteView>) -> StoreState
        decreases batch.len(),
    {
        if batch.len() == 0 {
            self
        } else {
            self.upsert_batch(batch.drop_last()).upsert_pulled(batch.last())
        }
    }

    /// PullUpsertNotes: the batch applied, then the cursor stored.
    pub open spec fn pull_upsert(self, batch: Seq<NoteView>, cursor: Seq<char>) -> StoreState {
        let applied = self.upsert_batch(batch);
        StoreState { notes: applied.notes, kv: applied.kv.insert(KEY_LAST_SYNCED_AT@, cursor) }
    }

    /// SetNotesEncryptedStatus: every live note gets the flag and becomes
    /// unsynced; tombstones stay as they are.
    pub open spec fn set_encrypted_status(self, flag: i32) -> StoreState {
        StoreState {
            notes: self.notes.map_values(|n: NoteView| n.with_encrypted_status(flag)),
            kv: self.kv,
        }
    }
}

/// The values of a list of notes.
pub open spec fn note_views(notes: Seq<Note>) -> Seq<NoteView> {
    notes.map_values(|n: Note| n@)
}

/// The notes table that a list of rows gives, a later row replacing an earlier
/// one that has the same id.
pub open spec fn notes_from(rows: Seq<NoteView>) -> Map<Seq<char>, NoteView>
    decreases rows.len(),
{
    if rows.len() == 0 {
        Map::empty()
    } else {
        notes_from(rows.drop_last()).insert(rows.last().id, rows.last())
    }
}

/// The keys and values of a list of entries.
pub open spec fn entry_views(entries: Seq<(String, String)>) -> Seq<(Seq<char>, Seq<char>)> {
    entries.map_values(|e: (String, String)| (e.0@, e.1@))
}

/// The key/value table that a list of entries gives, a later entry replacing
/// an earlier one that has the same key.
pub open spec fn entries_from(entries: Seq<(Seq<char>, Seq<char>)>) -> Map<Seq<char>, Seq<char>>
    decreases entries.len(),
{
    if entries.len() == 0 {
        Map::empty()
    } else {
        entries_from(entries.drop_last()).insert(entries.last().0, entries.last().1)
    }
}

/// Which rows of the notes table a listing is about.
#[derive(Debug, Clone, Copy, PartialEq, Eq, Structural)]
pub enum RowFilter {
    /// Every row.
    All,
    /// The rows with `is_deleted = 0`.
    Live,
    /// The rows with `is_synced = 0`.
    Unsynced,
}

impl RowFilter {
    /// Whether the filter lets a note through.
    pub open spec fn selects(self, n: NoteView) -> bool {
        match self {
            RowFilter::All => true,
            RowFilter::Live => n.is_live(),
            RowFilter::Unsynced => n.is_unsynced(),
        }
    }
}

/// Whether `listing` holds the rows of `table` that the filter selects, each
/// once and no others.
pub open spec fn lists_exactly(
    listing: Seq<Note>,
    table: Map<Seq<char>, NoteView>,
    filter: RowFilter,
) -> bool {
    &&& forall|k: int|
        0 <= k < listing.len() ==> {
            &&& table.contains_key((#[trigger] listing[k])@.id)
            &&& table[listing[k]@.id] == listing[k]@
            &&& filter.selects(listing[k]@)
        }
    &&& forall|k1: int, k2: int|
        0 <= k1 < k2 < listing.len() ==> (#[trigger] listing[k1])@.id != (
        #[trigger] listing[k2])@.id
    &&& forall|id: Seq<char>| #[trigger]
        table.contains_key(id) && filter.selects(table[id]) ==> exists|k: int|
            0 <= k < listing.len() && (#[trigger] listing[k])@.id == id
}

/// Whether a listing is ordered by `updated_at`, latest first.
pub open spec fn newest_first(listing: Seq<Note>) -> bool {
    forall|i: int, j: int|
        0 <= i < j < listing.len() ==> text_at_most(
            (#[trigger] listing[j])@.updated_at,
            (#[trigger] listing[i])@.updated_at,
        )
}

/// One entry of the key/value table.
struct KvEntry {
    key: String,
    value: String,
}

/// Whether some row of `rows` has the id `id`.
spec fn has_row(rows: Seq<Note>, id: Seq<char>) -> bool {
    exists|i: int| 0 <= i < rows.len() && (#[trigger] rows[i]).id@ == id
}

/// The index of a row with the id `id`.
spec fn row_index(rows: Seq<Note>, id: Seq<char>) -> int {
    choose|i: int| 0 <= i < rows.len() && (#[trigger] rows[i]).id@ == id
}

/// No two rows share an id.
spec fn distinct_ids(rows: Seq<Note>) -> bool {
    forall|i: int, j: int|
        0 <= i < j < rows.len() ==> (#[trigger] rows[i]).id@ != (#[trigger] rows[j]).id@
}

/// The notes table that a list of rows stands for.
spec fn notes_of(rows: Seq<Note>) -> Map<Seq<char>, NoteView> {
    Map::new(|id: Seq<char>| has_row(rows, id), |id: Seq<char>| rows[row_index(rows, id)]@)
}

/// Whether some entry of `entries` has the key `key`.
spec fn has_entry(entries: Seq<KvEntry>, key: Seq<char>) -> bool {
    exists|i: int| 0 <= i < entries.len() && (#[trigger] entries[i]).key@ == key
}

/// The index of an entry with the key `key`.
spec fn entry_index(entries: Seq<KvEntry>, key: Seq<char>) -> int {
    choose|i: int| 0 <= i < entries.len() && (#[trigger] entries[i]).key@ == key
}

/// No two entries share a key.
spec fn distinct_keys(entries: Seq<KvEntry>) -> bool {
    forall|i: int, j: int|
        0 <= i < j < entries.len() ==> (#[trigger] entries[i]).key@ != (#[trigger] entries[j]).key@
}

/// The key/value table that a list of entries stands for.
spec fn kv_of(entries: Seq<KvEntry>) -> Map<Seq<char>, Seq<char>> {
    Map::new(
        |key: Seq<char>| has_entry(entries, key),
        |key: Seq<char>| entries[entry_index(entries, key)].value@,
    )
}

proof fn lemma_row_lookup(rows: Seq<Note>, i: int)
    requires
        distinct_ids(rows),
        0 <= i < rows.len(),
    ensures
        has_row(rows, rows[i].id@),
        row_index(rows, rows[i].id@) == i,
        notes_of(rows).contains_key(rows[i].id@),
        notes_of(rows)[rows[i].id@] == rows[i]@,
{
    let id = rows[i].id@;
    assert(0 <= i < rows.len() && rows[i].id@ == id);
    let j = row_index(rows, id);
    assert(0 <= j < rows.len() && rows[j].id@ == id);
    if i < j {
        assert(rows[i].id@ != rows[j].id@);
    } else if j < i {
        assert(rows[j].id@ != rows[i].id@);
    }
}

proof fn lemma_row_replace(rows: Seq<Note>, i: int, row: Note)
    requires
        distinct_ids(rows),
        0 <= i < rows.len(),
        row.id@ == rows[i].id@,
    ensures
        distinct_ids(rows.update(i, row)),
        notes_of(rows.update(i, row)) == notes_of(rows).insert(row.id@, row@),
{
    let after = rows.update(i, row);
    assert forall|a: int, b: int| 0 <= a < b < after.len() implies (#[trigger] after[a]).id@ != (
    #[trigger] after[b]).id@ by {
        assert(rows[a].id@ != rows[b].id@);
    }
    assert forall|id: Seq<char>| has_row(after, id) == (has_row(rows, id) || id == row.id@) by {
        if has_row(after, id) {
            let k = row_index(after, id);
            assert(rows[k].id@ == id);
        }
        if has_row(rows, id) {
            let k = row_index(rows, id);
            assert(after[k].id@ == id);
        }
        if id == row.id@ {
            assert(after[i].id@ == id);
        }
    }
    assert forall|id: Seq<char>| has_row(after, id) implies #[trigger] notes_of(after)[id]
        == notes_of(rows).insert(row.id@, row@)[id] by {
        let k = row_index(after, id);
        lemma_row_lookup(after, k);
        if k != i {
            assert(rows[k].id@ == id);
            lemma_row_lookup(rows, k);
        }
    }
    assert(notes_of(after) =~= notes_of(rows).insert(row.id@, row@));
}

proof fn lemma_row_push(rows: Seq<Note>, row: Note)
    requires
        distinct_ids(rows),
        !has_row(rows, row.id@),
    ensures
        distinct_ids(rows.push(row)),
        notes_of(rows.push(row)) == notes_of(rows).insert(row.id@, row@),
{
    let after = rows.push(row);
    assert forall|a: int, b: int| 0 <= a < b < after.len() implies (#[trigger] after[a]).id@ != (
    #[trigger] after[b]).id@ by {
        if b < rows.len() {
            assert(rows[a].id@ != rows[b].id@);
        } else {
            assert(rows[a].id@ != row.id@);
        }
    }
    assert forall|id: Seq<char>| has_row(after, id) == (has_row(rows, id) || id == row.id@) by {
        if has_row(after, id) {
            let k = row_index(after, id);
            if k < rows.len() {
                assert(rows[k].id@ == id);
            }
        }
        if has_row(rows, id) {
            let k = row_index(rows, id);
            assert(after[k].id@ == id);
        }
        if id == row.id@ {
            assert(after[rows.len() as int].id@ == id);
        }
    }
    assert forall|id: Seq<char>| has_row(after, id) implies #[trigger] notes_of(after)[id]
        == notes_of(rows).insert(row.id@, row@)[id] by {
        let k = row_index(after, id);
        lemma_row_lookup(after, k);
        if k < rows.len() {
            assert(rows[k].id@ == id);
            lemma_row_lookup(rows, k);
        }
    }
    assert(notes_of(after) =~= notes_of(rows).insert(row.id@, row@));
}

proof fn lemma_entry_lookup(entries: Seq<KvEntry>, i: int)
    requires
        distinct_keys(entries),
        0 <= i < entries.len(),
    ensures
        has_entry(entries, entries[i].key@),
        entry_index(entries, entries[i].key@) == i,
        kv_of(entries).contains_key(entries[i].key@),
        kv_of(entries)[entries[i].key@] == entries[i].value@,
{
    let key = entries[i].key@;
    assert(0 <= i < entries.len() && entries[i].key@ == key);
    let j = entry_index(entries, key);
    assert(0 <= j < entries.len() && entries[j].key@ == key);
    if i < j {
        assert(entries[i].key@ != entries[j].key@);
    } else if j < i {
        assert(entries[j].key@ != entries[i].key@);
    }
}

proof fn lemma_entry_replace(entries: Seq<KvEntry>, i: int, entry: KvEntry)
    requires
        distinct_keys(entries),
        0 <= i < entries.len(),
        entry.key@ == entries[i].key@,
    ensures
        distinct_keys(entries.update(i, entry)),
        kv_of(entries.update(i, entry)) == kv_of(entries).insert(entry.key@, entry.value@),
{
    let after = entries.update(i, entry);
    assert forall|a: int, b: int| 0 <= a < b < after.len() implies (#[trigger] after[a]).key@ != (
    #[trigger] after[b]).key@ by {
        assert(entries[a].key@ != entries[b].key@);
    }
    assert forall|key: Seq<char>|
        has_entry(after, key) == (has_entry(entries, key) || key == entry.key@) by {
        if has_entry(after, key) {
            let k = entry_index(after, key);
            assert(entries[k].key@ == key);
        }
        if has_entry(entries, key) {
            let k = entry_index(entries, key);
            assert(after[k].key@ == key);
        }
        if key == entry.key@ {
            assert(after[i].key@ == key);
        }
    }
    assert forall|key: Seq<char>| has_entry(after, key) implies #[trigger] kv_of(after)[key]
        == kv_of(entries).insert(entry.key@, entry.value@)[key] by {
        let k = entry_index(after, key);
        lemma_entry_lookup(after, k);
        if k != i {
            assert(entries[k].key@ == key);
            lemma_entry_lookup(entries, k);
        }
    }
    assert(kv_of(after) =~= kv_of(entries).insert(entry.key@, entry.value@));
}

proof fn lemma_entry_push(entries: Seq<KvEntry>, entry: KvEntry)
    requires
        distinct_keys(entries),
        !has_entry(entries, entry.key@),
    ensures
        distinct_keys(entries.push(entry)),
        kv_of(entries.push(entry)) == kv_of(entries).insert(entry.key@, entry.value@),
{
    let after = entries.push(entry);
    assert forall|a: int, b: int| 0 <= a < b < after.len() implies (#[trigger] after[a]).key@ != (
    #[trigger] after[b]).key@ by {
        if b < entries.len() {
            assert(entries[a].key@ != entries[b].key@);
        } else {
            assert(entries[a].key@ != entry.key@);
        }
    }
    assert forall|key: Seq<char>|
        has_entry(after, key) == (has_entry(entries, key) || key == entry.key@) by {
        if has_entry(after, key) {
            let k = entry_index(after, key);
            if k < entries.len() {
                assert(entries[k].key@ == key);
            }
        }
        if has_entry(entries, key) {
            let k = entry_index(entries, key);
            assert(after[k].key@ == key);
        }
        if key == entry.key@ {
            assert(after[entries.len() as int].key@ == key);
        }
    }
    assert forall|key: Seq<char>| has_entry(after, key) implies #[trigger] kv_of(after)[key]
        == kv_of(entries).insert(entry.key@, entry.value@)[key] by {
        let k = entry_index(after, key);
        lemma_entry_lookup(after, k);
        if k < entries.len() {
            assert(entries[k].key@ == key);
            lemma_entry_lookup(entries, k);
        }
    }
    assert(kv_of(after) =~= kv_of(entries).insert(entry.key@, entry.value@));
}

proof fn lemma_entry_remove(entries: Seq<KvEntry>, i: int)
    requires
        distinct_keys(entries),
        0 <= i < entries.len(),
    ensures
        distinct_keys(entries.remove(i)),
        kv_of(entries.remove(i)) == kv_of(entries).remove(entries[i].key@),
{
    let after = entries.remove(i);
    let gone = entries[i].key@;
    assert forall|a: int| 0 <= a < after.len() implies #[trigger] after[a] == entries[if a < i {
        a
    } else {
        a + 1
    }] by {}
    assert forall|a: int, b: int| 0 <= a < b < after.len() implies (#[trigger] after[a]).key@ != (
    #[trigger] after[b]).key@ by {
        let a0 = if a < i { a } else { a + 1 };
        let b0 = if b < i { b } else { b + 1 };
        assert(entries[a0].key@ != entries[b0].key@);
    }
    assert forall|key: Seq<char>|
        has_entry(after, key) == (has_entry(entries, key) && key != gone) by {
        if has_entry(after, key) {
            let k = entry_index(after, key);
            let k0 = if k < i { k } else { k + 1 };
            assert(entries[k0].key@ == key);
            if k0 < i {
                assert(entries[k0].key@ != entries[i].key@);
            } else {
                assert(entries[i].key@ != entries[k0].key@);
            }
        }
        if has_entry(entries, key) && key != gone {
            let k = entry_index(entries, key);
            let k1 = if k < i { k } else { k - 1 };
            assert(after[k1].key@ == key);
        }
    }
    assert forall|key: Seq<char>| has_entry(after, key) implies #[trigger] kv_of(after)[key]
        == kv_of(entries).remove(gone)[key] by {
        let k = entry_index(after, key);
        lemma_entry_lookup(after, k);
        let k0 = if k < i { k } else { k + 1 };
        assert(entries[k0].key@ == key);
        lemma_entry_lookup(entries, k0);
    }
    assert(kv_of(after) =~= kv_of(entries).remove(gone));
}

proof fn lemma_entries_same(before: Seq<KvEntry>, after: Seq<KvEntry>)
    requires
        distinct_keys(before),
        before.len() == after.len(),
        forall|k: int|
            0 <= k < before.len() ==> (#[trigger] after[k]).key@ == before[k].key@ && after[k].value@
                == before[k].value@,
    ensures
        distinct_keys(after),
        kv_of(after) == kv_of(before),
{
    assert forall|a: int, b: int| 0 <= a < b < after.len() implies (#[trigger] after[a]).key@ != (
    #[trigger] after[b]).key@ by {
        assert(before[a].key@ != before[b].key@);
    }
    assert forall|key: Seq<char>| has_entry(after, key) == has_entry(before, key) by {
        if has_entry(after, key) {
            let k = entry_index(after, key);
            assert(before[k].key@ == key);
        }
        if has_entry(before, key) {
            let k = entry_index(before, key);
            assert(after[k].key@ == key);
        }
    }
    assert forall|key: Seq<char>| has_entry(after, key) implies #[trigger] kv_of(after)[key]
        == kv_of(before)[key] by {
        let k = entry_index(after, key);
        lemma_entry_lookup(after, k);
        assert(before[k].key@ == key);
        lemma_entry_lookup(before, k);
    }
    assert(kv_of(after) =~= kv_of(before));
}

proof fn lemma_rows_mapped(before: Seq<Note>, after: Seq<Note>, f: spec_fn(NoteView) -> NoteView)
    requires
        distinct_ids(before),
        before.len() == after.len(),
        forall|k: int|
            0 <= k < before.len() ==> (#[trigger] after[k])@ == f(before[k]@) && after[k].id@
                == before[k].id@,
    ensures
        distinct_ids(after),
        notes_of(after) == notes_of(before).map_values(f),
{
    assert forall|a: int, b: int| 0 <= a < b < after.len() implies (#[trigger] after[a]).id@ != (
    #[trigger] after[b]).id@ by {
        assert(before[a].id@ != before[b].id@);
    }
    assert forall|id: Seq<char>| has_row(after, id) == has_row(before, id) by {
        if has_row(after, id) {
            let k = row_index(after, id);
            assert(before[k].id@ == id);
        }
        if has_row(before, id) {
            let k = row_index(before, id);
            assert(after[k].id@ == id);
        }
    }
    assert forall|id: Seq<char>| has_row(after, id) implies #[trigger] notes_of(after)[id]
        == notes_of(before).map_values(f)[id] by {
        let k = row_index(after, id);
        lemma_row_lookup(after, k);
        assert(before[k].id@ == id);
        lemma_row_lookup(before, k);
    }
    assert(notes_of(after) =~= notes_of(before).map_values(f));
}

// ---------------------------------------------------------------------------
// Clock and fresh ids
// ---------------------------------------------------------------------------

/// `chrono::Utc::now` and `chrono::DateTime::to_rfc3339`: the current time as text.
/// Nothing is claimed of the text: it comes from the machine's clock.
#[verifier::external_body]
fn now_rfc3339() -> (now: String) {
    chrono::Utc::now().to_rfc3339()
}

/// `uuid::Uuid::new_v4` and its `to_string`: a random identifier as text.
/// Nothing is claimed of the text: it comes from a random number generator.
#[verifier::external_body]
fn fresh_uuid() -> (id: String) {
    uuid::Uuid::new_v4().to_string()
}

// ---------------------------------------------------------------------------
// Requests and replies
// ---------------------------------------------------------------------------

/// A command for the repository. The repository takes one request at a time
/// and answers it before it looks at the next.
#[allow(inconsistent_fields)]
pub enum DbRequest {
    GetNotes,
    GetNote { id: String },
    SaveNote { id: Option<String>, content: String, is_encrypted: bool },
    DeleteNote { id: String },
    GetUnsyncedNotes,
    MarkAsSynced { id: String },
    PullUpsertNotes { notes: Vec<Note>, cursor: String },
    GetKV { key: String },
    SetKV { key: String, value: String },
    DeleteKV { key: String },
    ClearAllData,
    SetNotesEncryptedStatus { is_encrypted: i32 },
}

/// The repository's answer to a request.
pub enum DbReply {
    /// The notes asked for.
    Notes(Vec<Note>),
    /// The note asked for, if there is one.
    Note(Option<Note>),
    /// The id under which a note was saved.
    Id(String),
    /// The value asked for, if there is one.
    Value(Option<String>),
    /// The change was made.
    Done,
}

/// The answer to GetNotes or GetUnsyncedNotes: the tables stay, the reply
/// lists the selected rows, latest first where that is asked for.
pub open spec fn listing_outcome(
    before: StoreState,
    filter: RowFilter,
    sorted: bool,
    after: StoreState,
    reply: DbReply,
) -> bool {
    &&& after == before
    &&& reply matches DbReply::Notes(list)
    &&& lists_exactly(list@, before.notes, filter)
    &&& sorted ==> newest_first(list@)
}

/// The answer to GetNote: the tables stay, the reply is the row or none.
pub open spec fn get_note_outcome(before: StoreState, id: Seq<char>, after: StoreState, reply: DbReply) -> bool {
    &&& after == before
    &&& reply matches DbReply::Note(found)
    &&& match found {
        Some(note) => before.notes.contains_key(id) && note@ == before.notes[id],
        None => !before.notes.contains_key(id),
    }
}

/// The answer to SaveNote: the note is saved under the id in the reply, which
/// is the id given where one was given, stamped with some time.
pub open spec fn save_note_outcome(
    before: StoreState,
    id: Option<Seq<char>>,
    content: Seq<char>,
    is_encrypted: bool,
    after: StoreState,
    reply: DbReply,
) -> bool {
    &&& reply matches DbReply::Id(saved)
    &&& (id matches Some(given) ==> saved@ == given)
    &&& exists|now: Seq<char>| after == #[trigger] before.save_note(saved@, content, is_encrypted, now)
}

/// The answer to DeleteNote: the row is tombstoned, stamped with some time.
pub open spec fn delete_note_outcome(
    before: StoreState,
    id: Seq<char>,
    after: StoreState,
    reply: DbReply,
) -> bool {
    &&& reply is Done
    &&& exists|now: Seq<char>| after == #[trigger] before.delete_note(id, now)
}

/// The answer to GetKV: the tables stay, the reply is the value or none.
pub open spec fn get_kv_outcome(before: StoreState, key: Seq<char>, after: StoreState, reply: DbReply) -> bool {
    &&& after == before
    &&& reply matches DbReply::Value(found)
    &&& match found {
        Some(value) => before.kv.contains_key(key) && value@ == before.kv[key],
        None => !before.kv.contains_key(key),
    }
}

/// The text of an optional id.
pub open spec fn id_view(id: Option<String>) -> Option<Seq<char>> {
    match id {
        Some(text) => Some(text@),
        None => None,
    }
}

/// What a request does to the tables and how it is answered.
pub open spec fn request_outcome(
    before: StoreState,
    req: DbRequest,
    after: StoreState,
    reply: DbReply,
) -> bool {
    match req {
        DbRequest::GetNotes => listing_outcome(before, RowFilter::Live, true, after, reply),
        DbRequest::GetNote { id } => get_note_outcome(before, id@, after, reply),
        DbRequest::SaveNote { id, content, is_encrypted } => save_note_outcome(
            before,
            id_view(id),
            content@,
            is_encrypted,
            after,
            reply,
        ),
        DbRequest::DeleteNote { id } => delete_note_outcome(before, id@, after, reply),
        DbRequest::GetUnsyncedNotes => listing_outcome(
            before,
            RowFilter::Unsynced,
            false,
            after,
            reply,
        ),
        DbRequest::MarkAsSynced { id } => reply is Done && after == before.mark_as_synced(id@),
        DbRequest::PullUpsertNotes { notes, cursor } => reply is Done && after
            == before.pull_upsert(note_views(notes@), cursor@),
        DbRequest::GetKV { key } => get_kv_outcome(before, key@, after, reply),
        DbRequest::SetKV { key, value } => reply is Done && after.notes == before.notes && after.kv
            == before.kv.insert(key@, value@),
        DbRequest::DeleteKV { key } => reply is Done && after.notes == before.notes && after.kv
            == before.kv.remove(key@),
        DbRequest::ClearAllData => reply is Done && after.notes == Map::<
            Seq<char>,
            NoteView,
        >::empty() && after.kv == Map::<Seq<char>, Seq<char>>::empty(),
        DbRequest::SetNotesEncryptedStatus { is_encrypted } => reply is Done && after
            == before.set_encrypted_status(is_encrypted),
    }
}

// ---------------------------------------------------------------------------
// Laws of the pull upsert
// ---------------------------------------------------------------------------

/// A note that the store does not accept is still not accepted after any other
/// pulled note was applied: stored timestamps only move forward.
pub proof fn lemma_upsert_keeps_settled(store: StoreState, incoming: NoteView, settled: NoteView)
    requires
        !store.accepts(settled),
    ensures
        !store.upsert_pulled(incoming).accepts(settled),
{
    if store.accepts(incoming) && incoming.id == settled.id {
        let stored = store.notes[settled.id].updated_at;
        if text_after(settled.updated_at, incoming.updated_at) {
            lemma_text_before_transitive(stored, incoming.updated_at, settled.updated_at);
        }
    }
}

/// A pulled note that was just applied is not accepted again.
pub proof fn lemma_upsert_settles(store: StoreState, incoming: NoteView)
    ensures
        !store.upsert_pulled(incoming).accepts(incoming),
{
    lemma_text_before_irreflexive(incoming.updated_at);
}

/// After a batch was applied, none of its notes is accepted again.
pub proof fn lemma_batch_settles(store: StoreState, batch: Seq<NoteView>)
    ensures
        forall|i: int| 0 <= i < batch.len() ==> !store.upsert_batch(batch).accepts(#[trigger] batch[i]),
    decreases batch.len(),
{
    if batch.len() > 0 {
        let head = batch.drop_last();
        let mid = store.upsert_batch(head);
        lemma_batch_settles(store, head);
        assert forall|i: int| 0 <= i < batch.len() implies !store.upsert_batch(batch).accepts(
            #[trigger] batch[i],
        ) by {
            if i < head.len() {
                assert(head[i] == batch[i]);
                lemma_upsert_keeps_settled(mid, batch.last(), batch[i]);
            } else {
                lemma_upsert_settles(mid, batch.last());
            }
        }
    }
}

/// A batch of which the store accepts no note leaves the store as it is.
pub proof fn lemma_settled_batch_is_noop(store: StoreState, batch: Seq<NoteView>)
    requires
        forall|i: int| 0 <= i < batch.len() ==> !store.accepts(#[trigger] batch[i]),
    ensures
        store.upsert_batch(batch) == store,
    decreases batch.len(),
{
    if batch.len() > 0 {
        let head = batch.drop_last();
        assert forall|i: int| 0 <= i < head.len() implies !store.accepts(#[trigger] head[i]) by {
            assert(head[i] == batch[i]);
        }
        lemma_settled_batch_is_noop(store, head);
        assert(!store.accepts(batch[batch.len() - 1]));
    }
}

/// Last writer wins, and only once: applying the same pulled batch with the
/// same cursor a second time changes nothing.
pub proof fn lemma_pull_upsert_idempotent(store: StoreState, batch: Seq<NoteView>, cursor: Seq<char>)
    ensures
        store.pull_upsert(batch, cursor).pull_upsert(batch, cursor) == store.pull_upsert(
            batch,
            cursor,
        ),
{
    let once = store.pull_upsert(batch, cursor);
    let applied = store.upsert_batch(batch);
    lemma_batch_settles(store, batch);
    assert forall|i: int| 0 <= i < batch.len() implies !once.accepts(#[trigger] batch[i]) by {
        assert(!applied.accepts(batch[i]));
    }
    lemma_settled_batch_is_noop(once, batch);
    assert(once.kv.insert(KEY_LAST_SYNCED_AT@, cursor) =~= once.kv);
}

/// The cursor that a stored value stands for: the value itself, or
/// `1970-01-01T00:00:00Z` where none is stored.
pub fn cursor_or_epoch(stored: Option<String>) -> (r: String)
    ensures
        r@ == match stored {
            Some(value) => value@,
            None => EPOCH_CURSOR@,
        },
{
    match stored {
        Some(value) => value,
        None => str_to_string(EPOCH_CURSOR),
    }
}

/// The two tables of the repository in memory: a notes table with one row per
/// id, and a key/value table with one entry per key.
pub struct Tables {
    rows: Vec<Note>,
    entries: Vec<KvEntry>,
}

impl View for Tables {
    type V = StoreState;

    closed spec fn view(&self) -> StoreState {
        StoreState { notes: notes_of(self.rows@), kv: kv_of(self.entries@) }
    }
}

impl Tables {
    /// The invariant of the tables: one row per note id, one entry per key.
    pub closed spec fn wf(&self) -> bool {
        distinct_ids(self.rows@) && distinct_keys(self.entries@)
    }

    /// Every row of the tables is filed under its own id.
    pub proof fn lemma_well_keyed(&self)
        requires
            self.wf(),
        ensures
            self@.well_keyed(),
    {
        assert forall|id: Seq<char>| #[trigger] self@.notes.contains_key(id) implies self@.notes[id].id
            == id by {
            let k = row_index(self.rows@, id);
            assert(self.rows@[k].id@ == id);
        }
    }

    /// Empty tables.
    pub fn empty() -> (r: Tables)
        ensures
            r.wf(),
            r@.notes == Map::<Seq<char>, NoteView>::empty(),
            r@.kv == Map::<Seq<char>, Seq<char>>::empty(),
    {
        let r = Tables { rows: Vec::new(), entries: Vec::new() };
        assert(r@.notes =~= Map::<Seq<char>, NoteView>::empty());
        assert(r@.kv =~= Map::<Seq<char>, Seq<char>>::empty());
        r
    }

    /// The index of the row with this id, if there is one.
    fn find_row(&self, id: &str) -> (r: Option<usize>)
        ensures
            match r {
                Some(i) => i < self.rows@.len() && self.rows@[i as int].id@ == id@,
                None => !has_row(self.rows@, id@),
            },
    {
        let mut i: usize = 0;
        while i < self.rows.len()
            invariant
                i <= self.rows@.len(),
                forall|k: int| 0 <= k < i ==> (#[trigger] self.rows@[k]).id@ != id@,
            decreases self.rows@.len() - i,
        {
            if str_eq(self.rows[i].id.as_str(), id) {
                return Some(i);
            }
            i = i + 1;
        }
        None
    }

    /// GetNote: the row with this id, live or tombstoned, or none.
    pub fn get_note(&self, id: &str) -> (r: Option<Note>)
        requires
            self.wf(),
        ensures
            match r {
                Some(note) => {
                    &&& self@.notes.contains_key(id@)
                    &&& note@ == self@.notes[id@]
                    &&& note@.id == id@
                },
                None => !self@.notes.contains_key(id@),
            },
    {
        match self.find_row(id) {
            Some(i) => {
                proof {
                    lemma_row_lookup(self.rows@, i as int);
                }
                Some(self.rows[i].copy())
            },
            None => None,
        }
    }

    /// Files `row` under its id, replacing the row that was there.
    fn put_row(&mut self, row: Note)
        requires
            old(self).wf(),
        ensures
            final(self).wf(),
            final(self)@.notes == old(self)@.notes.insert(row.id@, row@),
            final(self)@.kv == old(self)@.kv,
    {
        match self.find_row(row.id.as_str()) {
            Some(i) => {
                proof {
                    lemma_row_replace(self.rows@, i as int, row);
                }
                self.rows.set(i, row);
            },
            None => {
                proof {
                    lemma_row_push(self.rows@, row);
                }
                self.rows.push(row);
            },
        }
    }

    /// The index of the entry with this key, if there is one.
    fn find_entry(&self, key: &str) -> (r: Option<usize>)
        ensures
            match r {
                Some(i) => i < self.entries@.len() && self.entries@[i as int].key@ == key@,
                None => !has_entry(self.entries@, key@),
            },
    {
        let mut i: usize = 0;
        while i < self.entries.len()
            invariant
                i <= self.entries@.len(),
                forall|k: int| 0 <= k < i ==> (#[trigger] self.entries@[k]).key@ != key@,
            decreases self.entries@.len() - i,
        {
            if str_eq(self.entries[i].key.as_str(), key) {
                return Some(i);
            }
            i = i + 1;
        }
        None
    }

    /// GetKV: the value stored under a key, or none where there is no such entry.
    pub fn get_kv(&self, key: &str) -> (r: Option<String>)
        requires
            self.wf(),
        ensures
            match r {
                Some(value) => self@.kv.contains_key(key@) && value@ == self@.kv[key@],
                None => !self@.kv.contains_key(key@),
            },
    {
        match self.find_entry(key) {
            Some(i) => {
                proof {
                    lemma_entry_lookup(self.entries@, i as int);
                }
                Some(self.entries[i].value.clone())
            },
            None => None,
        }
    }

    /// SetKV: stores a value under a key, replacing the value that was there.
    pub fn set_kv(&mut self, key: &str, value: &str)
        requires
            old(self).wf(),
        ensures
            final(self).wf(),
            final(self)@.kv == old(self)@.kv.insert(key@, value@),
            final(self)@.notes == old(self)@.notes,
    {
        let entry = KvEntry { key: str_to_string(key), value: str_to_string(value) };
        match self.find_entry(key) {
            Some(i) => {
                proof {
                    lemma_entry_replace(self.entries@, i as int, entry);
                }
                self.entries.set(i, entry);
            },
            None => {
                proof {
                    lemma_entry_push(self.entries@, entry);
                }
                self.entries.push(entry);
            },
        }
    }

    /// DeleteKV: removes the entry under a key, if there is one.
    pub fn delete_kv(&mut self, key: &str)
        requires
            old(self).wf(),
        ensures
            final(self).wf(),
            final(self)@.kv == old(self)@.kv.remove(key@),
            final(self)@.notes == old(self)@.notes,
    {
        match self.find_entry(key) {
            Some(i) => {
                proof {
                    lemma_entry_remove(self.entries@, i as int);
                }
                let _ = self.entries.remove(i);
            },
            None => {
                assert(kv_of(self.entries@) =~= kv_of(self.entries@).remove(key@));
            },
        }
    }

    /// The cursor: the value under `last_synced_at`, or `1970-01-01T00:00:00Z`
    /// where the repository has never pulled.
    pub fn get_cursor(&self) -> (r: String)
        requires
            self.wf(),
        ensures
            r@ == self@.cursor(),
    {
        cursor_or_epoch(self.get_kv(KEY_LAST_SYNCED_AT))
    }

    /// Stores the cursor under `last_synced_at`.
    pub fn set_last_synced(&mut self, cursor: &str)
        requires
            old(self).wf(),
        ensures
            final(self).wf(),
            final(self)@.kv == old(self)@.kv.insert(KEY_LAST_SYNCED_AT@, cursor@),
            final(self)@.notes == old(self)@.notes,
            final(self)@.cursor() == cursor@,
    {
        self.set_kv(KEY_LAST_SYNCED_AT, cursor);
    }

    /// The salt stored under `encryption_salt`, if there is one.
    pub fn get_salt(&self) -> (r: Option<String>)
        requires
            self.wf(),
        ensures
            match r {
                Some(value) => self@.kv.contains_key(KEY_ENCRYPTION_SALT@) && value@
                    == self@.kv[KEY_ENCRYPTION_SALT@],
                None => !self@.kv.contains_key(KEY_ENCRYPTION_SALT@),
            },
    {
        self.get_kv(KEY_ENCRYPTION_SALT)
    }

    /// Stores the salt under `encryption_salt`.
    pub fn set_salt(&mut self, salt: &str)
        requires
            old(self).wf(),
        ensures
            final(self).wf(),
            final(self)@.kv == old(self)@.kv.insert(KEY_ENCRYPTION_SALT@, salt@),
            final(self)@.notes == old(self)@.notes,
    {
        self.set_kv(KEY_ENCRYPTION_SALT, salt);
    }

    /// Removes the entry under `encryption_salt`.
    pub fn delete_salt(&mut self)
        requires
            old(self).wf(),
        ensures
            final(self).wf(),
            final(self)@.kv == old(self)@.kv.remove(KEY_ENCRYPTION_SALT@),
            !final(self)@.kv.contains_key(KEY_ENCRYPTION_SALT@),
            final(self)@.notes == old(self)@.notes,
    {
        self.delete_kv(KEY_ENCRYPTION_SALT);
    }

    /// ClearAllData: removes every row of both tables.
    pub fn clear_all_data(&mut self)
        requires
            old(self).wf(),
        ensures
            final(self).wf(),
            final(self)@.notes == Map::<Seq<char>, NoteView>::empty(),
            final(self)@.kv == Map::<Seq<char>, Seq<char>>::empty(),
    {
        self.rows.clear();
        self.entries.clear();
        assert(self@.notes =~= Map::<Seq<char>, NoteView>::empty());
        assert(self@.kv =~= Map::<Seq<char>, Seq<char>>::empty());
    }

    /// SaveNote with the id and the time given: the row under `id` becomes a
    /// live, unsynced note with this content, stamped `now`. Returns the id.
    pub fn save_note_at(&mut self, id: String, content: &str, is_encrypted: bool, now: &str) -> (r:
        String)
        requires
            old(self).wf(),
        ensures
            final(self).wf(),
            final(self)@ == old(self)@.save_note(id@, content@, is_encrypted, now@),
            r@ == id@,
    {
        let r = id.clone();
        let row = Note {
            id,
            content: str_to_string(content),
            updated_at: str_to_string(now),
            is_deleted: 0,
            is_synced: 0,
            is_encrypted: if is_encrypted {
                1
            } else {
                0
            },
        };
        self.put_row(row);
        r
    }

    /// DeleteNote at the time given: a soft delete. The row under `id`, if there
    /// is one, becomes an unsynced tombstone stamped `now`.
    pub fn delete_note_at(&mut self, id: &str, now: &str)
        requires
            old(self).wf(),
        ensures
            final(self).wf(),
            final(self)@ == old(self)@.delete_note(id@, now@),
    {
        match self.get_note(id) {
            Some(found) => {
                let row = Note {
                    id: found.id,
                    content: found.content,
                    updated_at: str_to_string(now),
                    is_deleted: 1,
                    is_synced: 0,
                    is_encrypted: found.is_encrypted,
                };
                self.put_row(row);
            },
            None => {},
        }
    }

    /// MarkAsSynced: the row under `id`, if there is one, becomes synced.
    pub fn mark_as_synced(&mut self, id: &str)
        requires
            old(self).wf(),
        ensures
            final(self).wf(),
            final(self)@ == old(self)@.mark_as_synced(id@),
    {
        match self.get_note(id) {
            Some(found) => {
                let row = Note {
                    id: found.id,
                    content: found.content,
                    updated_at: found.updated_at,
                    is_deleted: found.is_deleted,
                    is_synced: 1,
                    is_encrypted: found.is_encrypted,
                };
                self.put_row(row);
            },
            None => {},
        }
    }

    /// Applies one pulled note: where there is no row under its id, or its
    /// timestamp is strictly later than the stored one, it replaces the row and
    /// is marked synced. Otherwise nothing changes.
    fn upsert_pulled(&mut self, incoming: &Note)
        requires
            old(self).wf(),
        ensures
            final(self).wf(),
            final(self)@ == old(self)@.upsert_pulled(incoming@),
    {
        let wins = match self.get_note(incoming.id.as_str()) {
            Some(found) => str_after(incoming.updated_at.as_str(), found.updated_at.as_str()),
            None => true,
        };
        if wins {
            let row = Note {
                id: incoming.id.clone(),
                content: incoming.content.clone(),
                updated_at: incoming.updated_at.clone(),
                is_deleted: incoming.is_deleted,
                is_synced: 1,
                is_encrypted: incoming.is_encrypted,
            };
            self.put_row(row);
        }
    }

    /// PullUpsertNotes: applies a pulled batch and stores its cursor, as one step.
    ///
    /// The notes are applied first to last. An incoming note replaces the stored
    /// row only if there is none under its id or its `updated_at` is strictly
    /// later; a note that replaces a row is marked synced. Then the cursor is
    /// stored under `last_synced_at`.
    pub fn pull_upsert_notes(&mut self, notes: &Vec<Note>, cursor: &str)
        requires
            old(self).wf(),
        ensures
            final(self).wf(),
            final(self)@ == old(self)@.pull_upsert(note_views(notes@), cursor@),
            final(self)@.cursor() == cursor@,
    {
        let ghost batch = note_views(notes@);
        let mut i: usize = 0;
        while i < notes.len()
            invariant
                i <= notes@.len(),
                self.wf(),
                batch == note_views(notes@),
                self@ == old(self)@.upsert_batch(batch.take(i as int)),
            decreases notes@.len() - i,
        {
            proof {
                assert(batch.take(i + 1).drop_last() == batch.take(i as int));
                assert(batch.take(i + 1).last() == notes@[i as int]@);
            }
            self.upsert_pulled(&notes[i]);
            i = i + 1;
        }
        assert(batch.take(i as int) == batch);
        self.set_last_synced(cursor);
    }

    /// SetNotesEncryptedStatus: every live note gets the flag and becomes
    /// unsynced, so that it is sent again. Tombstones stay as they are.
    pub fn set_notes_encrypted_status(&mut self, is_encrypted: i32)
        requires
            old(self).wf(),
        ensures
            final(self).wf(),
            final(self)@ == old(self)@.set_encrypted_status(is_encrypted),
    {
        let ghost before = self.rows@;
        let mut i: usize = 0;
        while i < self.rows.len()
            invariant
                i <= self.rows@.len(),
                self.rows@.len() == before.len(),
                self.entries@ == old(self).entries@,
                forall|k: int|
                    0 <= k < i ==> (#[trigger] self.rows@[k])@ == before[k]@.with_encrypted_status(
                        is_encrypted,
                    ),
                forall|k: int| i <= k < before.len() ==> #[trigger] self.rows@[k] == before[k],
            decreases self.rows@.len() - i,
        {
            if self.rows[i].is_deleted == 0 {
                let found = self.rows[i].copy();
                let row = Note {
                    id: found.id,
                    content: found.content,
                    updated_at: found.updated_at,
                    is_deleted: found.is_deleted,
                    is_synced: 0,
                    is_encrypted,
                };
                self.rows.set(i, row);
            }
            i = i + 1;
        }
        proof {
            lemma_rows_mapped(before, self.rows@, |n: NoteView| n.with_encrypted_status(is_encrypted));
            assert(self@.notes =~= old(self)@.set_encrypted_status(is_encrypted).notes);
        }
    }

    /// GetUnsyncedNotes: every row with `is_synced = 0`, tombstones included.
    pub fn get_unsynced_notes(&self) -> (r: Vec<Note>)
        requires
            self.wf(),
        ensures
            lists_exactly(r@, self@.notes, RowFilter::Unsynced),
    {
        let mut out: Vec<Note> = Vec::new();
        let ghost mut src: Seq<int> = Seq::empty();
        let mut i: usize = 0;
        while i < self.rows.len()
            invariant
                i <= self.rows@.len(),
                self.wf(),
                out@.len() == src.len(),
                forall|k: int|
                    0 <= k < src.len() ==> 0 <= #[trigger] src[k] < i && out@[k]@
                        == self.rows@[src[k]]@ && out@[k].is_synced == 0,
                forall|k1: int, k2: int| 0 <= k1 < k2 < src.len() ==> src[k1] < src[k2],
                forall|j: int|
                    0 <= j < i && (#[trigger] self.rows@[j]).is_synced == 0 ==> exists|k: int|
                        0 <= k < src.len() && #[trigger] src[k] == j,
            decreases self.rows@.len() - i,
        {
            if self.rows[i].is_synced == 0 {
                out.push(self.rows[i].copy());
                proof {
                    let ghost prev = src;
                    src = src.push(i as int);
                    assert forall|j: int|
                        0 <= j < i + 1 && (#[trigger] self.rows@[j]).is_synced == 0 implies exists|
                        k: int,
                    | 0 <= k < src.len() && #[trigger] src[k] == j by {
                        if j < i {
                            let k = choose|k: int| 0 <= k < prev.len() && #[trigger] prev[k] == j;
                            assert(src[k] == j);
                        } else {
                            assert(src[prev.len() as int] == j);
                        }
                    }
                }
            }
            i = i + 1;
        }
        proof {
            let rows = self.rows@;
            let table = self@.notes;
            assert forall|k: int| 0 <= k < out@.len() implies {
                &&& table.contains_key((#[trigger] out@[k])@.id)
                &&& table[out@[k]@.id] == out@[k]@
                &&& RowFilter::Unsynced.selects(out@[k]@)
            } by {
                lemma_row_lookup(rows, src[k]);
            }
            assert forall|k1: int, k2: int| 0 <= k1 < k2 < out@.len() implies (#[trigger] out@[k1])@.id
                != (#[trigger] out@[k2])@.id by {
                assert(src[k1] < src[k2]);
                assert(rows[src[k1]].id@ != rows[src[k2]].id@);
            }
            assert forall|id: Seq<char>| #[trigger]
                table.contains_key(id) && RowFilter::Unsynced.selects(table[id]) implies exists|k: int|
                0 <= k < out@.len() && (#[trigger] out@[k])@.id == id by {
                let j = row_index(rows, id);
                lemma_row_lookup(rows, j);
                assert(rows[j].is_synced == 0);
                let k = choose|k: int| 0 <= k < src.len() && #[trigger] src[k] == j;
                assert(out@[k]@.id == id);
            }
        }
        out
    }

    /// GetNotes: the live notes (`is_deleted = 0`), latest `updated_at` first.
    pub fn get_notes(&self) -> (r: Vec<Note>)
        requires
            self.wf(),
        ensures
            lists_exactly(r@, self@.notes, RowFilter::Live),
            newest_first(r@),
    {
        let mut out: Vec<Note> = Vec::new();
        let ghost mut src: Seq<int> = Seq::empty();
        let mut i: usize = 0;
        while i < self.rows.len()
            invariant
                i <= self.rows@.len(),
                self.wf(),
                out@.len() == src.len(),
                newest_first(out@),
                forall|k: int|
                    0 <= k < src.len() ==> 0 <= #[trigger] src[k] < i && out@[k]@
                        == self.rows@[src[k]]@ && out@[k].is_deleted == 0,
                forall|k1: int, k2: int| 0 <= k1 < k2 < src.len() ==> src[k1] != src[k2],
                forall|j: int|
                    0 <= j < i && (#[trigger] self.rows@[j]).is_deleted == 0 ==> exists|k: int|
                        0 <= k < src.len() && #[trigger] src[k] == j,
            decreases self.rows@.len() - i,
        {
            if self.rows[i].is_deleted == 0 {
                let row = self.rows[i].copy();
                let mut p: usize = 0;
                while p < out.len() && !str_after(
                    row.updated_at.as_str(),
                    out[p].updated_at.as_str(),
                )
                    invariant
                        p <= out@.len(),
                        forall|k: int|
                            0 <= k < p ==> text_at_most(
                                row@.updated_at,
                                (#[trigger] out@[k])@.updated_at,
                            ),
                    decreases out@.len() - p,
                {
                    p = p + 1;
                }
                proof {
                    let ghost prev_out = out@;
                    let ghost prev = src;
                    let ghost next_out = prev_out.insert(p as int, row);
                    src = prev.insert(p as int, i as int);
                    prev_out.insert_ensures(p as int, row);
                    prev.insert_ensures(p as int, i as int);
                    assert forall|a: int, b: int| 0 <= a < b < next_out.len() implies text_at_most(
                        (#[trigger] next_out[b])@.updated_at,
                        (#[trigger] next_out[a])@.updated_at,
                    ) by {
                        if b == p {
                            assert(next_out[a] == prev_out[a]);
                        } else if a == p {
                            let later = prev_out[b - 1]@.updated_at;
                            let here = prev_out[p as int]@.updated_at;
                            let new = row@.updated_at;
                            assert(next_out[b] == prev_out[b - 1]);
                            assert(text_before(here, new));
                            if text_before(new, later) {
                                lemma_text_before_transitive(here, new, later);
                                if b - 1 == p {
                                    lemma_text_before_irreflexive(here);
                                } else {
                                    assert(text_at_most(
                                        prev_out[b - 1]@.updated_at,
                                        prev_out[p as int]@.updated_at,
                                    ));
                                }
                            }
                        } else {
                            let a0 = if a < p { a } else { a - 1 };
                            let b0 = if b < p { b } else { b - 1 };
                            assert(next_out[a] == prev_out[a0]);
                            assert(next_out[b] == prev_out[b0]);
                            assert(text_at_most(
                                prev_out[b0]@.updated_at,
                                prev_out[a0]@.updated_at,
                            ));
                        }
                    }
                    assert forall|j: int|
                        0 <= j < i + 1 && (#[trigger] self.rows@[j]).is_deleted == 0 implies exists|
                        k: int,
                    | 0 <= k < src.len() && #[trigger] src[k] == j by {
                        if j < i {
                            let k = choose|k: int| 0 <= k < prev.len() && #[trigger] prev[k] == j;
                            let k1 = if k < p { k } else { k + 1 };
                            assert(src[k1] == j);
                        } else {
                            assert(src[p as int] == j);
                        }
                    }
                    assert forall|k: int| 0 <= k < src.len() implies 0 <= #[trigger] src[k] < i + 1
                        && next_out[k]@ == self.rows@[src[k]]@ && next_out[k].is_deleted == 0 by {
                        if k != p {
                            let k0 = if k < p { k } else { k - 1 };
                            assert(src[k] == prev[k0]);
                            assert(next_out[k] == prev_out[k0]);
                        }
                    }
                    assert forall|k1: int, k2: int| 0 <= k1 < k2 < src.len() implies src[k1]
                        != src[k2] by {
                        let a0 = if k1 < p { k1 } else { k1 - 1 };
                        let b0 = if k2 < p { k2 } else { k2 - 1 };
                        if k1 != p && k2 != p {
                            assert(src[k1] == prev[a0]);
                            assert(src[k2] == prev[b0]);
                        } else if k1 == p {
                            assert(src[k2] == prev[b0]);
                        } else {
                            assert(src[k1] == prev[a0]);
                        }
                    }
                }
                out.insert(p, row);
            }
            i = i + 1;
        }
        proof {
            let rows = self.rows@;
            let table = self@.notes;
            assert forall|k: int| 0 <= k < out@.len() implies {
                &&& table.contains_key((#[trigger] out@[k])@.id)
                &&& table[out@[k]@.id] == out@[k]@
                &&& RowFilter::Live.selects(out@[k]@)
            } by {
                lemma_row_lookup(rows, src[k]);
            }
            assert forall|k1: int, k2: int| 0 <= k1 < k2 < out@.len() implies (#[trigger] out@[k1])@.id
                != (#[trigger] out@[k2])@.id by {
                assert(src[k1] != src[k2]);
                if src[k1] < src[k2] {
                    assert(rows[src[k1]].id@ != rows[src[k2]].id@);
                } else {
                    assert(rows[src[k2]].id@ != rows[src[k1]].id@);
                }
            }
            assert forall|id: Seq<char>| #[trigger]
                table.contains_key(id) && RowFilter::Live.selects(table[id]) implies exists|k: int|
                0 <= k < out@.len() && (#[trigger] out@[k])@.id == id by {
                let j = row_index(rows, id);
                lemma_row_lookup(rows, j);
                assert(rows[j].is_deleted == 0);
                let k = choose|k: int| 0 <= k < src.len() && #[trigger] src[k] == j;
                assert(out@[k]@.id == id);
            }
        }
        out
    }

    /// SaveNote: upserts a note. Where no id is given a fresh UUID is drawn.
    /// The row becomes live and unsynced, with this content, stamped with the
    /// current time. Returns the id under which the note is stored.
    pub fn save_note(&mut self, id: Option<String>, content: &str, is_encrypted: bool) -> (r: String)
        requires
            old(self).wf(),
        ensures
            final(self).wf(),
            id matches Some(given) ==> r@ == given@,
            exists|now: Seq<char>|
                final(self)@ == #[trigger] old(self)@.save_note(r@, content@, is_encrypted, now),
    {
        let id = match id {
            Some(given) => given,
            None => fresh_uuid(),
        };
        let now = now_rfc3339();
        let r = self.save_note_at(id, content, is_encrypted, now.as_str());
        assert(self@ == old(self)@.save_note(r@, content@, is_encrypted, now@));
        r
    }

    /// DeleteNote: a soft delete. The row under `id`, if there is one, becomes
    /// an unsynced tombstone stamped with the current time.
    pub fn delete_note(&mut self, id: &str)
        requires
            old(self).wf(),
        ensures
            final(self).wf(),
            exists|now: Seq<char>| final(self)@ == #[trigger] old(self)@.delete_note(id@, now),
    {
        let now = now_rfc3339();
        self.delete_note_at(id, now.as_str());
        assert(self@ == old(self)@.delete_note(id@, now@));
    }

    /// Every row of the notes table, in no particular order.
    pub fn all_notes(&self) -> (r: Vec<Note>)
        requires
            self.wf(),
        ensures
            lists_exactly(r@, self@.notes, RowFilter::All),
    {
        let mut out: Vec<Note> = Vec::new();
        let mut i: usize = 0;
        while i < self.rows.len()
            invariant
                i <= self.rows@.len(),
                out@.len() == i,
                forall|k: int| 0 <= k < i ==> (#[trigger] out@[k])@ == self.rows@[k]@,
            decreases self.rows@.len() - i,
        {
            out.push(self.rows[i].copy());
            i = i + 1;
        }
        proof {
            let rows = self.rows@;
            let table = self@.notes;
            assert forall|k: int| 0 <= k < out@.len() implies {
                &&& table.contains_key((#[trigger] out@[k])@.id)
                &&& table[out@[k]@.id] == out@[k]@
            } by {
                lemma_row_lookup(rows, k);
            }
            assert forall|k1: int, k2: int| 0 <= k1 < k2 < out@.len() implies (#[trigger] out@[k1])@.id
                != (#[trigger] out@[k2])@.id by {
                assert(rows[k1].id@ != rows[k2].id@);
            }
            assert forall|id: Seq<char>| #[trigger] table.contains_key(id) implies exists|k: int|
                0 <= k < out@.len() && (#[trigger] out@[k])@.id == id by {
                let j = row_index(rows, id);
                assert(out@[j]@.id == id);
            }
        }
        out
    }

    /// Tables with the rows given, later rows replacing earlier ones that have
    /// the same id, and no key/value entries.
    pub fn from_notes(notes: &Vec<Note>) -> (r: Tables)
        ensures
            r.wf(),
            r@.notes == notes_from(note_views(notes@)),
            r@.kv == Map::<Seq<char>, Seq<char>>::empty(),
    {
        let ghost all = note_views(notes@);
        let mut r = Tables::empty();
        let mut i: usize = 0;
        while i < notes.len()
            invariant
                i <= notes@.len(),
                r.wf(),
                all == note_views(notes@),
                r@.notes == notes_from(all.take(i as int)),
                r@.kv == Map::<Seq<char>, Seq<char>>::empty(),
            decreases notes@.len() - i,
        {
            proof {
                assert(all.take(i + 1).drop_last() == all.take(i as int));
                assert(all.take(i + 1).last() == notes@[i as int]@);
            }
            r.put_row(notes[i].copy());
            i = i + 1;
        }
        assert(all.take(i as int) == all);
        r
    }

    /// Tables with the rows and the entries given, later ones replacing
    /// earlier ones that have the same id or key.
    pub fn from_rows(notes: &Vec<Note>, entries: &Vec<(String, String)>) -> (r: Tables)
        ensures
            r.wf(),
            r@.notes == notes_from(note_views(notes@)),
            r@.kv == entries_from(entry_views(entries@)),
    {
        let ghost all = entry_views(entries@);
        let mut r = Tables::from_notes(notes);
        let mut i: usize = 0;
        while i < entries.len()
            invariant
                i <= entries@.len(),
                r.wf(),
                all == entry_views(entries@),
                r@.notes == notes_from(note_views(notes@)),
                r@.kv == entries_from(all.take(i as int)),
            decreases entries@.len() - i,
        {
            proof {
                assert(all.take(i + 1).drop_last() == all.take(i as int));
                assert(all.take(i + 1).last() == (entries@[i as int].0@, entries@[i as int].1@));
            }
            r.set_kv(entries[i].0.as_str(), entries[i].1.as_str());
            i = i + 1;
        }
        assert(all.take(i as int) == all);
        r
    }

    /// A second copy of the tables.
    pub fn duplicate(&self) -> (r: Tables)
        requires
            self.wf(),
        ensures
            r.wf(),
            r@ == self@,
    {
        let mut rows: Vec<Note> = Vec::new();
        let mut i: usize = 0;
        while i < self.rows.len()
            invariant
                i <= self.rows@.len(),
                rows@.len() == i,
                forall|k: int| 0 <= k < i ==> (#[trigger] rows@[k])@ == self.rows@[k]@,
            decreases self.rows@.len() - i,
        {
            rows.push(self.rows[i].copy());
            i = i + 1;
        }
        let mut entries: Vec<KvEntry> = Vec::new();
        let mut j: usize = 0;
        while j < self.entries.len()
            invariant
                j <= self.entries@.len(),
                entries@.len() == j,
                forall|k: int|
                    0 <= k < j ==> (#[trigger] entries@[k]).key@ == self.entries@[k].key@
                        && entries@[k].value@ == self.entries@[k].value@,
            decreases self.entries@.len() - j,
        {
            entries.push(
                KvEntry { key: self.entries[j].key.clone(), value: self.entries[j].value.clone() },
            );
            j = j + 1;
        }
        proof {
            lemma_rows_mapped(self.rows@, rows@, |n: NoteView| n);
            assert(notes_of(rows@) =~= notes_of(self.rows@));
            lemma_entries_same(self.entries@, entries@);
        }
        Tables { rows, entries }
    }

    /// Answers one request: runs the command it names to completion and gives
    /// its reply.
    pub fn handle(&mut self, req: DbRequest) -> (reply: DbReply)
        requires
            old(self).wf(),
        ensures
            final(self).wf(),
            request_outcome(old(self)@, req, final(self)@, reply),
    {
        let ghost request = req;
        match req {
            DbRequest::GetNotes => {
                let reply = DbReply::Notes(self.get_notes());
                assert(request_outcome(old(self)@, request, self@, reply));
                reply
            },
            DbRequest::GetNote { id } => {
                let reply = DbReply::Note(self.get_note(id.as_str()));
                assert(request_outcome(old(self)@, request, self@, reply));
                reply
            },
            DbRequest::SaveNote { id, content, is_encrypted } => {
                let ghost given = id_view(id);
                let saved = self.save_note(id, content.as_str(), is_encrypted);
                assert(given matches Some(text) ==> saved@ == text);
                assert(exists|now: Seq<char>|
                    self@ == #[trigger] old(self)@.save_note(saved@, content@, is_encrypted, now));
                let reply = DbReply::Id(saved);
                assert(reply matches DbReply::Id(text) && text@ == saved@);
                assert(save_note_outcome(
                    old(self)@,
                    given,
                    content@,
                    is_encrypted,
                    self@,
                    reply,
                ));
                reply
            },
            DbRequest::DeleteNote { id } => {
                self.delete_note(id.as_str());
                assert(request_outcome(old(self)@, request, self@, DbReply::Done));
                DbReply::Done
            },
            DbRequest::GetUnsyncedNotes => {
                let reply = DbReply::Notes(self.get_unsynced_notes());
                assert(request_outcome(old(self)@, request, self@, reply));
                reply
            },
            DbRequest::MarkAsSynced { id } => {
                self.mark_as_synced(id.as_str());
                assert(request_outcome(old(self)@, request, self@, DbReply::Done));
                DbReply::Done
            },
            DbRequest::PullUpsertNotes { notes, cursor } => {
                self.pull_upsert_notes(&notes, cursor.as_str());
                assert(request_outcome(old(self)@, request, self@, DbReply::Done));
                DbReply::Done
            },
            DbRequest::GetKV { key } => {
                let reply = DbReply::Value(self.get_kv(key.as_str()));
                assert(request_outcome(old(self)@, request, self@, reply));
                reply
            },
            DbRequest::SetKV { key, value } => {
                self.set_kv(key.as_str(), value.as_str());
                assert(request_outcome(old(self)@, request, self@, DbReply::Done));
                DbReply::Done
            },
            DbRequest::DeleteKV { key } => {
                self.delete_kv(key.as_str());
                assert(request_outcome(old(self)@, request, self@, DbReply::Done));
                DbReply::Done
            },
            DbRequest::ClearAllData => {
                self.clear_all_data();
                assert(request_outcome(old(self)@, request, self@, DbReply::Done));
                DbReply::Done
            },
            DbRequest::SetNotesEncryptedStatus { is_encrypted } => {
                self.set_notes_encrypted_status(is_encrypted);
                assert(request_outcome(old(self)@, request, self@, DbReply::Done));
                DbReply::Done
            },
        }
    }
}

} // verus!
