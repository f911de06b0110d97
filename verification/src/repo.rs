//! The repository: the tables, kept in memory and mirrored to an SQLite
//! database.
//!
//! Every request is answered from the tables in memory. A request that changes
//! them is first written to the database, in one transaction; only when the
//! transaction has committed do the tables in memory change. A request that
//! cannot be written changes nothing.
//!
//! Nothing is claimed about the content of the database: what is proved is
//! proved of the tables in memory, and of the statements that are handed to
//! the database. These mirror the request: on a database that holds the
//! tables as they were, they give the tables as they are afterwards.

use vstd::prelude::*;
use vstd::string::*;
use crate::db::{
    delete_note_outcome, id_view, lists_exactly, newest_first, note_views, request_outcome,
    save_note_outcome, DbReply, DbRequest, Note, NoteView, RowFilter, StoreState, Tables,
    KEY_ENCRYPTION_SALT, KEY_LAST_SYNCED_AT,
};
use crate::text::str_to_string;

verus! {

// ---------------------------------------------------------------------------
// Schema and statements
// ---------------------------------------------------------------------------

/// Creates the notes table.
pub const SQL_CREATE_NOTES: &'static str =
    "CREATE TABLE IF NOT EXISTS notes (id TEXT PRIMARY KEY, content TEXT, updated_at TEXT, is_deleted INTEGER DEFAULT 0, is_synced INTEGER DEFAULT 1, is_encrypted INTEGER DEFAULT 0);";

/// Creates the key/value table.
pub const SQL_CREATE_KV: &'static str =
    "CREATE TABLE IF NOT EXISTS kv_store (key TEXT PRIMARY KEY, value TEXT);";

/// Reads every row of the notes table.
pub const SQL_SELECT_NOTES: &'static str =
    "SELECT id, content, updated_at, is_deleted, is_synced, is_encrypted FROM notes";

/// Reads every entry of the key/value table.
pub const SQL_SELECT_KV: &'static str = "SELECT key, value FROM kv_store";

/// Writes one row of the notes table.
pub const SQL_PUT_NOTE: &'static str =
    "INSERT OR REPLACE INTO notes (id, content, updated_at, is_deleted, is_synced, is_encrypted) VALUES (?1, ?2, ?3, ?4, ?5, ?6)";

/// Writes one entry of the key/value table.
pub const SQL_PUT_KV: &'static str = "INSERT OR REPLACE INTO kv_store (key, value) VALUES (?1, ?2)";

/// Removes one entry of the key/value table.
pub const SQL_DELETE_KV: &'static str = "DELETE FROM kv_store WHERE key = ?1";

/// Removes every row of the notes table.
pub const SQL_CLEAR_NOTES: &'static str = "DELETE FROM notes";

/// Removes every entry of the key/value table.
pub const SQL_CLEAR_KV: &'static str = "DELETE FROM kv_store";

/// Opens a transaction.
pub const SQL_BEGIN: &'static str = "BEGIN IMMEDIATE";

/// Commits the open transaction.
pub const SQL_COMMIT: &'static str = "COMMIT";

/// Abandons the open transaction.
pub const SQL_ROLLBACK: &'static str = "ROLLBACK";

// ---------------------------------------------------------------------------
// Outside types and trusted wrappers
// ---------------------------------------------------------------------------

#[verifier::external_type_specification]
#[verifier::external_body]
pub struct ExConnection(rusqlite::Connection);

#[verifier::external_type_specification]
#[verifier::external_body]
pub struct ExSqliteError(rusqlite::Error);

/// `rusqlite::Connection::execute_batch`: runs statements that take no parameters.
/// Nothing is claimed of the outcome: it depends on the database.
#[verifier::external_body]
fn sql_execute_batch(conn: &rusqlite::Connection, sql: &str) -> (r: Result<(), rusqlite::Error>) {
    conn.execute_batch(sql)
}

/// `rusqlite::Connection::execute` with the six columns of a note as parameters.
/// Nothing is claimed of the outcome: it depends on the database.
#[verifier::external_body]
fn sql_execute_note(conn: &rusqlite::Connection, sql: &str, note: &Note) -> (r: Result<
    usize,
    rusqlite::Error,
>) {
    conn.execute(
        sql,
        (
            &note.id,
            &note.content,
            &note.updated_at,
            note.is_deleted,
            note.is_synced,
            note.is_encrypted,
        ),
    )
}

/// `rusqlite::Connection::execute` with two texts as parameters.
/// Nothing is claimed of the outcome: it depends on the database.
#[verifier::external_body]
fn sql_execute_pair(conn: &rusqlite::Connection, sql: &str, first: &str, second: &str) -> (r: Result<
    usize,
    rusqlite::Error,
>) {
    conn.execute(sql, (first, second))
}

/// `rusqlite::Connection::execute` with one text as parameter.
/// Nothing is claimed of the outcome: it depends on the database.
#[verifier::external_body]
fn sql_execute_text(conn: &rusqlite::Connection, sql: &str, text: &str) -> (r: Result<
    usize,
    rusqlite::Error,
>) {
    conn.execute(sql, (text,))
}

/// `rusqlite::Connection::prepare` and `rusqlite::Statement::query_map`: reads rows of
/// three texts and three integers.
/// Nothing is claimed of the rows: they are what the database holds.
#[verifier::external_body]
fn sql_query_notes(conn: &rusqlite::Connection, sql: &str) -> (r: Result<
    Vec<(String, String, String, i32, i32, i32)>,
    rusqlite::Error,
>) {
    let mut stmt = conn.prepare(sql)?;
    let rows = stmt.query_map(
        (),
        |row| Ok((row.get(0)?, row.get(1)?, row.get(2)?, row.get(3)?, row.get(4)?, row.get(5)?)),
    )?;
    rows.collect()
}

/// `rusqlite::Connection::prepare` and `rusqlite::Statement::query_map`: reads rows of
/// two columns as pairs of texts.
/// Nothing is claimed of the rows: they are what the database holds.
#[verifier::external_body]
fn sql_query_pairs(conn: &rusqlite::Connection, sql: &str) -> (r: Result<
    Vec<(String, String)>,
    rusqlite::Error,
>) {
    let mut stmt = conn.prepare(sql)?;
    let rows = stmt.query_map((), |row| Ok((row.get(0)?, row.get(1)?)))?;
    rows.collect()
}

// ---------------------------------------------------------------------------
// The repository
// ---------------------------------------------------------------------------

/// Why the repository refused a request or could not be opened.
#[derive(Debug, Clone, Copy, PartialEq, Eq, Structural)]
pub enum StoreError {
    /// The tables could not be created in the database.
    Schema,
    /// The database could not be read.
    Read,
    /// The change could not be written to the database.
    Write,
}

/// What a request touches, so that it can be written to the database.
struct Touched {
    /// The notes with these ids.
    note_ids: Vec<String>,
    /// The note under the id that the reply names.
    saved_note: bool,
    /// Every note.
    all_notes: bool,
    /// The entries under these keys.
    keys: Vec<String>,
    /// Both tables were emptied.
    cleared: bool,
}

/// The repository: the tables in memory and the database they are mirrored to.
pub struct Repo {
    tables: Tables,
    conn: rusqlite::Connection,
}

impl View for Repo {
    type V = StoreState;

    closed spec fn view(&self) -> StoreState {
        self.tables@
    }
}

fn one_text(text: &str) -> (r: Vec<String>)
    ensures
        r@.len() == 1,
        r@[0]@ == text@,
{
    let mut out: Vec<String> = Vec::new();
    out.push(str_to_string(text));
    out
}

fn ids_of(notes: &Vec<Note>) -> (r: Vec<String>)
    ensures
        r@.len() == notes@.len(),
        forall|k: int| 0 <= k < r@.len() ==> (#[trigger] r@[k])@ == notes@[k]@.id,
{
    let mut out: Vec<String> = Vec::new();
    let mut i: usize = 0;
    while i < notes.len()
        invariant
            i <= notes@.len(),
            out@.len() == i,
            forall|k: int| 0 <= k < i ==> (#[trigger] out@[k])@ == notes@[k]@.id,
        decreases notes@.len() - i,
    {
        out.push(notes[i].id.clone());
        i = i + 1;
    }
    out
}

/// The notes that rows of the notes table stand for, column by column.
fn notes_from_rows(rows: Vec<(String, String, String, i32, i32, i32)>) -> (r: Vec<Note>)
    ensures
        r@.len() == rows@.len(),
        forall|k: int|
            0 <= k < r@.len() ==> {
                &&& (#[trigger] r@[k]).id@ == rows@[k].0@
                &&& r@[k].content@ == rows@[k].1@
                &&& r@[k].updated_at@ == rows@[k].2@
                &&& r@[k].is_deleted == rows@[k].3
                &&& r@[k].is_synced == rows@[k].4
                &&& r@[k].is_encrypted == rows@[k].5
            },
{
    let mut out: Vec<Note> = Vec::new();
    let mut i: usize = 0;
    while i < rows.len()
        invariant
            i <= rows@.len(),
            out@.len() == i,
            forall|k: int|
                0 <= k < i ==> {
                    &&& (#[trigger] out@[k]).id@ == rows@[k].0@
                    &&& out@[k].content@ == rows@[k].1@
                    &&& out@[k].updated_at@ == rows@[k].2@
                    &&& out@[k].is_deleted == rows@[k].3
                    &&& out@[k].is_synced == rows@[k].4
                    &&& out@[k].is_encrypted == rows@[k].5
                },
        decreases rows@.len() - i,
    {
        out.push(
            Note {
                id: rows[i].0.clone(),
                content: rows[i].1.clone(),
                updated_at: rows[i].2.clone(),
                is_deleted: rows[i].3,
                is_synced: rows[i].4,
                is_encrypted: rows[i].5,
            },
        );
        i = i + 1;
    }
    out
}

/// The texts of a list of owned texts.
spec fn texts(list: Seq<String>) -> Seq<Seq<char>> {
    list.map_values(|t: String| t@)
}

/// The ids of the notes that a request may change, apart from a note it saves
/// and apart from a request that changes every note.
spec fn touched_ids(req: DbRequest) -> Seq<Seq<char>> {
    match req {
        DbRequest::DeleteNote { id } => seq![id@],
        DbRequest::MarkAsSynced { id } => seq![id@],
        DbRequest::PullUpsertNotes { notes, .. } => note_views(notes@).map_values(
            |n: NoteView| n.id,
        ),
        _ => Seq::empty(),
    }
}

/// The keys of the entries that a request may change.
spec fn touched_keys(req: DbRequest) -> Seq<Seq<char>> {
    match req {
        DbRequest::PullUpsertNotes { .. } => seq![KEY_LAST_SYNCED_AT@],
        DbRequest::SetKV { key, .. } => seq![key@],
        DbRequest::DeleteKV { key } => seq![key@],
        _ => Seq::empty(),
    }
}

impl Touched {
    /// Whether anything is to be written.
    spec fn changes(self) -> bool {
        self.cleared || self.all_notes || self.saved_note || self.note_ids@.len() > 0
            || self.keys@.len() > 0
    }

    /// Whether this is what a request touches.
    spec fn is_for(self, req: DbRequest) -> bool {
        &&& self.saved_note == (req is SaveNote)
        &&& self.all_notes == (req is SetNotesEncryptedStatus)
        &&& self.cleared == (req is ClearAllData)
        &&& texts(self.note_ids@) == touched_ids(req)
        &&& texts(self.keys@) == touched_keys(req)
    }

    /// Whether anything is to be written.
    fn has_changes(&self) -> (r: bool)
        ensures
            r == self.changes(),
    {
        self.cleared || self.all_notes || self.saved_note || self.note_ids.len() > 0
            || self.keys.len() > 0
    }
}

/// Whether a request only reads.
pub open spec fn reads_only(req: DbRequest) -> bool {
    req is GetNotes || req is GetNote || req is GetUnsyncedNotes || req is GetKV
}

/// What a request touches: nothing for a request that only reads; otherwise
/// the rows and entries that the command may change.
fn touched_by(req: &DbRequest) -> (r: Touched)
    ensures
        r.is_for(*req),
        r.changes() == !reads_only(*req),
{
    let mut touched = Touched {
        note_ids: Vec::new(),
        saved_note: false,
        all_notes: false,
        keys: Vec::new(),
        cleared: false,
    };
    match req {
        DbRequest::GetNotes => {},
        DbRequest::GetNote { .. } => {},
        DbRequest::GetUnsyncedNotes => {},
        DbRequest::GetKV { .. } => {},
        DbRequest::SaveNote { .. } => {
            touched.saved_note = true;
        },
        DbRequest::DeleteNote { id } => {
            touched.note_ids = one_text(id.as_str());
        },
        DbRequest::MarkAsSynced { id } => {
            touched.note_ids = one_text(id.as_str());
        },
        DbRequest::PullUpsertNotes { notes, .. } => {
            touched.note_ids = ids_of(notes);
            touched.keys = one_text(KEY_LAST_SYNCED_AT);
        },
        DbRequest::SetKV { key, .. } => {
            touched.keys = one_text(key.as_str());
        },
        DbRequest::DeleteKV { key } => {
            touched.keys = one_text(key.as_str());
        },
        DbRequest::ClearAllData => {
            touched.cleared = true;
        },
        DbRequest::SetNotesEncryptedStatus { .. } => {
            touched.all_notes = true;
        },
    }
    assert(texts(touched.note_ids@) =~= touched_ids(*req));
    assert(texts(touched.keys@) =~= touched_keys(*req));
    touched
}

// ---------------------------------------------------------------------------
// What is written
// ---------------------------------------------------------------------------

/// One statement that changes the database.
enum SqlWrite {
    /// Remove every row of the notes table.
    ClearNotes,
    /// Remove every entry of the key/value table.
    ClearKv,
    /// Write this row of the notes table.
    PutNote { row: Note },
    /// Write this entry of the key/value table.
    PutKv { key: String, value: String },
    /// Remove the entry under this key.
    DeleteKv { key: String },
}

/// The mathematical value of a statement.
#[allow(inconsistent_fields)]
enum WriteView {
    ClearNotes,
    ClearKv,
    PutNote { row: NoteView },
    PutKv { key: Seq<char>, value: Seq<char> },
    DeleteKv { key: Seq<char> },
}

impl View for SqlWrite {
    type V = WriteView;

    closed spec fn view(&self) -> WriteView {
        match *self {
            SqlWrite::ClearNotes => WriteView::ClearNotes,
            SqlWrite::ClearKv => WriteView::ClearKv,
            SqlWrite::PutNote { row } => WriteView::PutNote { row: row@ },
            SqlWrite::PutKv { key, value } => WriteView::PutKv { key: key@, value: value@ },
            SqlWrite::DeleteKv { key } => WriteView::DeleteKv { key: key@ },
        }
    }
}

/// The values of a list of statements.
spec fn write_views(plan: Seq<SqlWrite>) -> Seq<WriteView> {
    plan.map_values(|w: SqlWrite| w@)
}

/// The statement that mirrors the note under `id`: its row as the tables hold
/// it, or nothing where they hold no such row.
spec fn note_writes(next: StoreState, id: Seq<char>) -> Seq<WriteView> {
    if next.notes.contains_key(id) {
        seq![WriteView::PutNote { row: next.notes[id] }]
    } else {
        Seq::empty()
    }
}

/// The statement that mirrors the entry under `key`: its value as the tables
/// hold it, or its removal where they hold no such entry.
spec fn entry_writes(next: StoreState, key: Seq<char>) -> Seq<WriteView> {
    if next.kv.contains_key(key) {
        seq![WriteView::PutKv { key, value: next.kv[key] }]
    } else {
        seq![WriteView::DeleteKv { key }]
    }
}

/// The statements that mirror the notes under these ids, in their order.
spec fn ids_writes(next: StoreState, ids: Seq<Seq<char>>) -> Seq<WriteView>
    decreases ids.len(),
{
    if ids.len() == 0 {
        Seq::empty()
    } else {
        ids_writes(next, ids.drop_last()) + note_writes(next, ids.last())
    }
}

/// The statements that mirror the entries under these keys, in their order.
spec fn keys_writes(next: StoreState, keys: Seq<Seq<char>>) -> Seq<WriteView>
    decreases keys.len(),
{
    if keys.len() == 0 {
        Seq::empty()
    } else {
        keys_writes(next, keys.drop_last()) + entry_writes(next, keys.last())
    }
}

/// The statements that empty both tables, where that was asked for.
spec fn clear_writes(cleared: bool) -> Seq<WriteView> {
    if cleared {
        seq![WriteView::ClearNotes, WriteView::ClearKv]
    } else {
        Seq::empty()
    }
}

/// The statements that write these rows, in their order.
spec fn rows_writes(rows: Seq<NoteView>) -> Seq<WriteView> {
    rows.map_values(|row: NoteView| WriteView::PutNote { row })
}

/// The statement that mirrors the note a request saved, under the id that the
/// reply names.
spec fn saved_writes(next: StoreState, saved_note: bool, reply: DbReply) -> Seq<WriteView> {
    match reply {
        DbReply::Id(id) => if saved_note {
            note_writes(next, id@)
        } else {
            Seq::empty()
        },
        _ => Seq::empty(),
    }
}

/// The rows that are written one by one: a listing of the whole notes table
/// where every note was touched, none otherwise.
spec fn listing_for(rows: Seq<Note>, next: StoreState, all_notes: bool) -> bool {
    if all_notes {
        lists_exactly(rows, next.notes, RowFilter::All)
    } else {
        rows.len() == 0
    }
}

/// The statements that bring the database from the tables before a request to
/// the tables after it, `next`: both tables emptied where that was asked for,
/// then every row where every note was touched, then the saved note, the
/// touched notes and the touched entries, each as `next` holds it.
spec fn planned_writes(
    next: StoreState,
    touched: Touched,
    reply: DbReply,
    rows: Seq<NoteView>,
) -> Seq<WriteView> {
    clear_writes(touched.cleared) + rows_writes(rows) + saved_writes(
        next,
        touched.saved_note,
        reply,
    ) + ids_writes(next, texts(touched.note_ids@)) + keys_writes(next, texts(touched.keys@))
}

// ---------------------------------------------------------------------------
// What the statements do
// ---------------------------------------------------------------------------

/// The tables that a database holds after one statement, given the tables it
/// held before.
spec fn after_write(state: StoreState, w: WriteView) -> StoreState {
    match w {
        WriteView::ClearNotes => StoreState { notes: Map::empty(), kv: state.kv },
        WriteView::ClearKv => StoreState { notes: state.notes, kv: Map::empty() },
        WriteView::PutNote { row } => StoreState {
            notes: state.notes.insert(row.id, row),
            kv: state.kv,
        },
        WriteView::PutKv { key, value } => StoreState {
            notes: state.notes,
            kv: state.kv.insert(key, value),
        },
        WriteView::DeleteKv { key } => StoreState { notes: state.notes, kv: state.kv.remove(key) },
    }
}

/// The tables that a database holds after a list of statements, first to last.
spec fn after_writes(state: StoreState, plan: Seq<WriteView>) -> StoreState
    decreases plan.len(),
{
    if plan.len() == 0 {
        state
    } else {
        after_write(after_writes(state, plan.drop_last()), plan.last())
    }
}

proof fn lemma_one_write(state: StoreState, w: WriteView)
    ensures
        after_writes(state, seq![w]) == after_write(state, w),
{
    let one = seq![w];
    assert(one.drop_last().len() == 0);
    assert(after_writes(state, one.drop_last()) == state);
    assert(one.last() == w);
}

proof fn lemma_writes_join(state: StoreState, a: Seq<WriteView>, b: Seq<WriteView>)
    ensures
        after_writes(state, a + b) == after_writes(after_writes(state, a), b),
    decreases b.len(),
{
    if b.len() == 0 {
        assert(a + b == a);
    } else {
        lemma_writes_join(state, a, b.drop_last());
        assert((a + b).drop_last() == a + b.drop_last());
        assert((a + b).last() == b.last());
    }
}

proof fn lemma_ids_join(next: StoreState, a: Seq<Seq<char>>, b: Seq<Seq<char>>)
    ensures
        ids_writes(next, a + b) == ids_writes(next, a) + ids_writes(next, b),
    decreases b.len(),
{
    if b.len() == 0 {
        assert(a + b == a);
        assert(ids_writes(next, a) + Seq::<WriteView>::empty() == ids_writes(next, a));
    } else {
        lemma_ids_join(next, a, b.drop_last());
        assert((a + b).drop_last() == a + b.drop_last());
        assert((a + b).last() == b.last());
        let x = ids_writes(next, a);
        let y = ids_writes(next, b.drop_last());
        let z = note_writes(next, b.last());
        assert((x + y) + z == x + (y + z));
    }
}

proof fn lemma_one_id(next: StoreState, id: Seq<char>)
    ensures
        ids_writes(next, seq![id]) == note_writes(next, id),
{
    let one = seq![id];
    assert(one.drop_last().len() == 0);
    assert(ids_writes(next, one.drop_last()) == Seq::<WriteView>::empty());
    assert(one.last() == id);
    assert(Seq::<WriteView>::empty() + note_writes(next, id) == note_writes(next, id));
}

/// The ids of a list of rows.
spec fn row_ids(rows: Seq<NoteView>) -> Seq<Seq<char>> {
    rows.map_values(|n: NoteView| n.id)
}

proof fn lemma_rows_are_ids(next: StoreState, rows: Seq<NoteView>)
    requires
        forall|k: int|
            0 <= k < rows.len() ==> next.notes.contains_key((#[trigger] rows[k]).id)
                && next.notes[rows[k].id] == rows[k],
    ensures
        rows_writes(rows) == ids_writes(next, row_ids(rows)),
    decreases rows.len(),
{
    if rows.len() == 0 {
        assert(rows_writes(rows) == Seq::<WriteView>::empty());
    } else {
        let head = rows.drop_last();
        assert forall|k: int| 0 <= k < head.len() implies next.notes.contains_key(
            (#[trigger] head[k]).id,
        ) && next.notes[head[k].id] == head[k] by {
            assert(head[k] == rows[k]);
        }
        lemma_rows_are_ids(next, head);
        assert(row_ids(rows).drop_last() == row_ids(head));
        assert(row_ids(rows).last() == rows.last().id);
        assert(rows.last() == rows[rows.len() - 1]);
        let last = WriteView::PutNote { row: rows.last() };
        assert(note_writes(next, rows.last().id) == seq![last]);
        assert(rows_writes(rows) == rows_writes(head).push(last));
        assert(rows_writes(head).push(last) == rows_writes(head) + seq![last]);
    }
}

proof fn lemma_ids_written(state: StoreState, next: StoreState, ids: Seq<Seq<char>>)
    requires
        next.well_keyed(),
    ensures
        ({
            let r = after_writes(state, ids_writes(next, ids));
            &&& r.kv == state.kv
            &&& forall|x: Seq<char>| #[trigger]
                r.notes.contains_key(x) <==> state.notes.contains_key(x) || (ids.contains(x)
                    && next.notes.contains_key(x))
            &&& forall|x: Seq<char>|
                ids.contains(x) && next.notes.contains_key(x) ==> #[trigger] r.notes[x]
                    == next.notes[x]
            &&& forall|x: Seq<char>|
                !(ids.contains(x) && next.notes.contains_key(x)) ==> #[trigger] r.notes[x]
                    == state.notes[x]
        }),
    decreases ids.len(),
{
    if ids.len() > 0 {
        let head = ids.drop_last();
        let last = ids.last();
        lemma_ids_written(state, next, head);
        let mid = after_writes(state, ids_writes(next, head));
        lemma_writes_join(state, ids_writes(next, head), note_writes(next, last));
        let r = after_writes(state, ids_writes(next, ids));
        assert(r == after_writes(mid, note_writes(next, last)));
        if next.notes.contains_key(last) {
            lemma_one_write(mid, WriteView::PutNote { row: next.notes[last] });
            assert(next.notes[last].id == last);
            assert(r.notes == mid.notes.insert(last, next.notes[last]));
        } else {
            assert(r == mid);
        }
        assert(ids[ids.len() - 1] == last);
        assert forall|x: Seq<char>| ids.contains(x) <==> head.contains(x) || x == last by {
            if ids.contains(x) {
                let i = choose|i: int| 0 <= i < ids.len() && ids[i] == x;
                if i < head.len() {
                    assert(head[i] == x);
                }
            }
            if head.contains(x) {
                let i = choose|i: int| 0 <= i < head.len() && head[i] == x;
                assert(ids[i] == x);
            }
        }
    }
}

proof fn lemma_keys_written(state: StoreState, next: StoreState, keys: Seq<Seq<char>>)
    ensures
        ({
            let r = after_writes(state, keys_writes(next, keys));
            &&& r.notes == state.notes
            &&& forall|x: Seq<char>| #[trigger]
                r.kv.contains_key(x) <==> if keys.contains(x) {
                    next.kv.contains_key(x)
                } else {
                    state.kv.contains_key(x)
                }
            &&& forall|x: Seq<char>|
                keys.contains(x) && next.kv.contains_key(x) ==> #[trigger] r.kv[x] == next.kv[x]
            &&& forall|x: Seq<char>| !keys.contains(x) ==> #[trigger] r.kv[x] == state.kv[x]
        }),
    decreases keys.len(),
{
    if keys.len() > 0 {
        let head = keys.drop_last();
        let last = keys.last();
        lemma_keys_written(state, next, head);
        let mid = after_writes(state, keys_writes(next, head));
        lemma_writes_join(state, keys_writes(next, head), entry_writes(next, last));
        let r = after_writes(state, keys_writes(next, keys));
        assert(r == after_writes(mid, entry_writes(next, last)));
        if next.kv.contains_key(last) {
            lemma_one_write(mid, WriteView::PutKv { key: last, value: next.kv[last] });
            assert(r.kv == mid.kv.insert(last, next.kv[last]));
        } else {
            lemma_one_write(mid, WriteView::DeleteKv { key: last });
            assert(r.kv == mid.kv.remove(last));
        }
        assert(keys[keys.len() - 1] == last);
        assert forall|x: Seq<char>| keys.contains(x) <==> head.contains(x) || x == last by {
            if keys.contains(x) {
                let i = choose|i: int| 0 <= i < keys.len() && keys[i] == x;
                if i < head.len() {
                    assert(head[i] == x);
                }
            }
            if head.contains(x) {
                let i = choose|i: int| 0 <= i < head.len() && head[i] == x;
                assert(keys[i] == x);
            }
        }
    }
}

/// A pulled batch changes no row but those under the ids of its notes, leaves
/// a row under each of them, and leaves the key/value table alone.
proof fn lemma_upsert_batch_reach(store: StoreState, batch: Seq<NoteView>)
    ensures
        ({
            let r = store.upsert_batch(batch);
            &&& r.kv == store.kv
            &&& forall|x: Seq<char>|
                row_ids(batch).contains(x) ==> #[trigger] r.notes.contains_key(x)
            &&& forall|x: Seq<char>|
                !row_ids(batch).contains(x) ==> (#[trigger] r.notes.contains_key(x)
                    <==> store.notes.contains_key(x))
            &&& forall|x: Seq<char>|
                !row_ids(batch).contains(x) ==> #[trigger] r.notes[x] == store.notes[x]
        }),
    decreases batch.len(),
{
    if batch.len() > 0 {
        let head = batch.drop_last();
        let last = batch.last();
        lemma_upsert_batch_reach(store, head);
        let ids = row_ids(batch);
        assert(ids[ids.len() - 1] == last.id);
        assert forall|x: Seq<char>| ids.contains(x) <==> row_ids(head).contains(x) || x
            == last.id by {
            if ids.contains(x) {
                let i = choose|i: int| 0 <= i < ids.len() && ids[i] == x;
                if i < head.len() {
                    assert(row_ids(head)[i] == x);
                }
            }
            if row_ids(head).contains(x) {
                let i = choose|i: int| 0 <= i < row_ids(head).len() && row_ids(head)[i] == x;
                assert(ids[i] == x);
            }
        }
    }
}

/// The plan mirrors the request: handed to a database that holds the tables
/// as they were before the request, its statements leave the database holding
/// the tables as they are after it.
proof fn lemma_plan_mirrors(
    before: StoreState,
    req: DbRequest,
    next: StoreState,
    reply: DbReply,
    touched: Touched,
    rows: Seq<Note>,
    plan: Seq<WriteView>,
)
    requires
        next.well_keyed(),
        request_outcome(before, req, next, reply),
        touched.is_for(req),
        listing_for(rows, next, touched.all_notes),
        plan == planned_writes(next, touched, reply, note_views(rows)),
    ensures
        after_writes(before, plan) == next,
{
    let listed = note_views(rows);
    let saved_ids: Seq<Seq<char>> = match reply {
        DbReply::Id(id) => if touched.saved_note {
            seq![id@]
        } else {
            Seq::empty()
        },
        _ => Seq::empty(),
    };
    let ids = texts(touched.note_ids@);
    let keys = texts(touched.keys@);
    let all_ids = row_ids(listed) + saved_ids + ids;
    // The notes part of the plan is the writes of all touched ids.
    assert forall|k: int| 0 <= k < listed.len() implies next.notes.contains_key(
        (#[trigger] listed[k]).id,
    ) && next.notes[listed[k].id] == listed[k] by {
        assert(listed[k] == rows[k]@);
    }
    lemma_rows_are_ids(next, listed);
    if saved_ids.len() > 0 {
        lemma_one_id(next, saved_ids[0]);
        assert(saved_ids == seq![saved_ids[0]]);
    }
    assert(saved_writes(next, touched.saved_note, reply) == ids_writes(next, saved_ids));
    lemma_ids_join(next, row_ids(listed), saved_ids);
    lemma_ids_join(next, row_ids(listed) + saved_ids, ids);
    let clear = clear_writes(touched.cleared);
    let notes_part = ids_writes(next, all_ids);
    let keys_part = keys_writes(next, keys);
    assert(plan == clear + notes_part + keys_part) by {
        let a = clear;
        let b = rows_writes(listed);
        let c = saved_writes(next, touched.saved_note, reply);
        let d = ids_writes(next, ids);
        assert(a + b + c + d == a + (b + c + d));
    }
    // What the database holds after each part.
    let s1 = after_writes(before, clear);
    if touched.cleared {
        let first = seq![WriteView::ClearNotes];
        let second = seq![WriteView::ClearKv];
        assert(clear == first + second);
        lemma_writes_join(before, first, second);
        lemma_one_write(before, WriteView::ClearNotes);
        lemma_one_write(after_writes(before, first), WriteView::ClearKv);
        assert(s1.notes == Map::<Seq<char>, NoteView>::empty());
        assert(s1.kv == Map::<Seq<char>, Seq<char>>::empty());
    } else {
        assert(s1 == before);
    }
    lemma_writes_join(before, clear, notes_part);
    lemma_writes_join(before, clear + notes_part, keys_part);
    let s2 = after_writes(s1, notes_part);
    let s3 = after_writes(s2, keys_part);
    assert(after_writes(before, plan) == s3);
    lemma_ids_written(s1, next, all_ids);
    lemma_keys_written(s2, next, keys);
    assert forall|x: Seq<char>| all_ids.contains(x) <==> row_ids(listed).contains(x)
        || saved_ids.contains(x) || ids.contains(x) by {
        lemma_contains_join(row_ids(listed), saved_ids, x);
        lemma_contains_join(row_ids(listed) + saved_ids, ids, x);
    }
    match req {
        DbRequest::PullUpsertNotes { notes, cursor } => {
            lemma_upsert_batch_reach(before, note_views(notes@));
            assert(keys == seq![KEY_LAST_SYNCED_AT@]);
            assert(keys[0] == KEY_LAST_SYNCED_AT@);
        },
        DbRequest::SetNotesEncryptedStatus { is_encrypted } => {
            assert forall|x: Seq<char>| next.notes.contains_key(x) implies row_ids(
                listed,
            ).contains(x) by {
                let k = choose|k: int| 0 <= k < rows.len() && (#[trigger] rows[k])@.id == x;
                assert(row_ids(listed)[k] == x);
            }
        },
        DbRequest::DeleteNote { id } => {
            assert(ids == seq![id@]);
            assert(ids[0] == id@);
        },
        DbRequest::MarkAsSynced { id } => {
            assert(ids == seq![id@]);
            assert(ids[0] == id@);
        },
        DbRequest::SaveNote { id, content, is_encrypted } => {
            assert(saved_ids.len() == 1);
            assert(saved_ids[0] == reply->Id_0@);
        },
        DbRequest::SetKV { key, value } => {
            assert(keys == seq![key@]);
            assert(keys[0] == key@);
        },
        DbRequest::DeleteKV { key } => {
            assert(keys == seq![key@]);
            assert(keys[0] == key@);
        },
        _ => {},
    }
    assert forall|x: Seq<char>| row_ids(listed).contains(x) implies next.notes.contains_key(x) by {
        let k = choose|k: int| 0 <= k < row_ids(listed).len() && row_ids(listed)[k] == x;
        assert(listed[k].id == x);
    }
    assert(s3.notes =~= next.notes);
    assert(s3.kv =~= next.kv);
}

proof fn lemma_contains_join(a: Seq<Seq<char>>, b: Seq<Seq<char>>, x: Seq<char>)
    ensures
        (a + b).contains(x) <==> a.contains(x) || b.contains(x),
{
    if (a + b).contains(x) {
        let i = choose|i: int| 0 <= i < (a + b).len() && (a + b)[i] == x;
        if i < a.len() {
            assert(a[i] == x);
        } else {
            assert(b[i - a.len()] == x);
        }
    }
    if a.contains(x) {
        let i = choose|i: int| 0 <= i < a.len() && a[i] == x;
        assert((a + b)[i] == x);
    }
    if b.contains(x) {
        let i = choose|i: int| 0 <= i < b.len() && b[i] == x;
        assert((a + b)[a.len() + i] == x);
    }
}

/// Whether a request is answered without a statement being handed to the
/// database: it only reads, or it names a note that is not there, or it is
/// about every note and there is none.
pub open spec fn writes_nothing(before: StoreState, req: DbRequest) -> bool {
    match req {
        DbRequest::DeleteNote { id } => !before.notes.contains_key(id@),
        DbRequest::MarkAsSynced { id } => !before.notes.contains_key(id@),
        DbRequest::SetNotesEncryptedStatus { .. } => forall|id: Seq<char>|
            !before.notes.contains_key(id),
        _ => reads_only(req),
    }
}

fn written(r: Result<usize, rusqlite::Error>) -> (w: Result<(), StoreError>)
    ensures
        w is Ok <==> r is Ok,
        w matches Err(e) ==> e == StoreError::Write,
{
    match r {
        Ok(_) => Ok(()),
        Err(_) => Err(StoreError::Write),
    }
}

fn executed(r: Result<(), rusqlite::Error>) -> (w: Result<(), StoreError>)
    ensures
        w is Ok <==> r is Ok,
        w matches Err(e) ==> e == StoreError::Write,
{
    match r {
        Ok(_) => Ok(()),
        Err(_) => Err(StoreError::Write),
    }
}

/// A request that writes nothing has an empty plan.
proof fn lemma_nothing_planned(
    before: StoreState,
    req: DbRequest,
    next: StoreState,
    reply: DbReply,
    touched: Touched,
    plan: Seq<WriteView>,
)
    requires
        writes_nothing(before, req),
        !reads_only(req),
        request_outcome(before, req, next, reply),
        touched.is_for(req),
        exists|rows: Seq<Note>| #[trigger]
            listing_for(rows, next, touched.all_notes) && plan == planned_writes(
                next,
                touched,
                reply,
                note_views(rows),
            ),
    ensures
        plan.len() == 0,
{
    let rows = choose|rows: Seq<Note>| #[trigger]
        listing_for(rows, next, touched.all_notes) && plan == planned_writes(
            next,
            touched,
            reply,
            note_views(rows),
        );
    let ids = texts(touched.note_ids@);
    let keys = texts(touched.keys@);
    assert(keys.len() == 0);
    assert(!touched.cleared && !touched.saved_note);
    match req {
        DbRequest::DeleteNote { id } => {
            assert(next == before);
            assert(ids == seq![id@]);
            assert(ids.drop_last().len() == 0);
            assert(ids.last() == id@);
            assert(ids_writes(next, ids) == ids_writes(next, ids.drop_last()) + note_writes(
                next,
                id@,
            ));
            assert(rows.len() == 0);
        },
        DbRequest::MarkAsSynced { id } => {
            assert(next == before);
            assert(ids == seq![id@]);
            assert(ids.drop_last().len() == 0);
            assert(ids.last() == id@);
            assert(ids_writes(next, ids) == ids_writes(next, ids.drop_last()) + note_writes(
                next,
                id@,
            ));
            assert(rows.len() == 0);
        },
        DbRequest::SetNotesEncryptedStatus { is_encrypted } => {
            assert(ids.len() == 0);
            if rows.len() > 0 {
                assert(next.notes.contains_key(rows[0]@.id));
                assert(before.notes.contains_key(rows[0]@.id));
            }
        },
        _ => {},
    }
}

impl Repo {
    /// The repository's invariant: that of its tables.
    pub closed spec fn wf(&self) -> bool {
        self.tables.wf()
    }

    /// Opens the repository on a database: creates the two tables where they
    /// are missing and reads what they hold into memory.
    pub fn new(conn: rusqlite::Connection) -> (r: Result<Repo, StoreError>)
        ensures
            r matches Ok(repo) ==> repo.wf(),
            r matches Err(e) ==> e == StoreError::Schema || e == StoreError::Read,
    {
        if sql_execute_batch(&conn, SQL_CREATE_NOTES).is_err() {
            return Err(StoreError::Schema);
        }
        if sql_execute_batch(&conn, SQL_CREATE_KV).is_err() {
            return Err(StoreError::Schema);
        }
        let notes = match sql_query_notes(&conn, SQL_SELECT_NOTES) {
            Ok(rows) => notes_from_rows(rows),
            Err(_) => {
                return Err(StoreError::Read);
            },
        };
        let entries = match sql_query_pairs(&conn, SQL_SELECT_KV) {
            Ok(entries) => entries,
            Err(_) => {
                return Err(StoreError::Read);
            },
        };
        Ok(Repo { tables: Tables::from_rows(&notes, &entries), conn })
    }

    /// Adds to a plan the statement that mirrors the note under this id: its
    /// row as `next` holds it. Where `next` holds no such row nothing is added.
    fn write_note(next: &Tables, id: &str, plan: &mut Vec<SqlWrite>)
        requires
            next.wf(),
        ensures
            write_views(final(plan)@) == write_views(old(plan)@) + note_writes(next@, id@),
    {
        match next.get_note(id) {
            Some(row) => {
                let ghost added = WriteView::PutNote { row: row@ };
                plan.push(SqlWrite::PutNote { row });
                assert(write_views(plan@) == write_views(old(plan)@).push(added));
                assert(write_views(old(plan)@).push(added) == write_views(old(plan)@) + seq![added]);
            },
            None => {
                assert(write_views(old(plan)@) + Seq::<WriteView>::empty() == write_views(
                    old(plan)@,
                ));
            },
        }
    }

    /// Adds to a plan the statement that mirrors the entry under this key: its
    /// value as `next` holds it, or its removal where `next` holds no such entry.
    fn write_entry(next: &Tables, key: &str, plan: &mut Vec<SqlWrite>)
        requires
            next.wf(),
        ensures
            write_views(final(plan)@) == write_views(old(plan)@) + entry_writes(next@, key@),
    {
        let write = match next.get_kv(key) {
            Some(value) => SqlWrite::PutKv { key: str_to_string(key), value },
            None => SqlWrite::DeleteKv { key: str_to_string(key) },
        };
        let ghost added = write@;
        plan.push(write);
        assert(write_views(plan@) == write_views(old(plan)@).push(added));
        assert(write_views(old(plan)@).push(added) == write_views(old(plan)@) + seq![added]);
    }

    /// Plans what a request has to write: the statements that mirror what it
    /// touched, each row and entry as `next`, the tables after the request,
    /// holds it.
    ///
    /// `before` are the tables before the request and `req` is the request.
    /// Handed to a database that holds `before`, the plan leaves it holding
    /// `next`: whatever the request changed is in the plan.
    fn write_touched(
        next: &Tables,
        touched: &Touched,
        reply: &DbReply,
        Ghost(before): Ghost<StoreState>,
        Ghost(req): Ghost<DbRequest>,
    ) -> (plan: Vec<SqlWrite>)
        requires
            next.wf(),
            touched.is_for(req),
            request_outcome(before, req, next@, *reply),
        ensures
            exists|rows: Seq<Note>| #[trigger]
                listing_for(rows, next@, touched.all_notes) && write_views(plan@) == planned_writes(
                    next@,
                    *touched,
                    *reply,
                    note_views(rows),
                ),
            after_writes(before, write_views(plan@)) == next@,
    {
        let mut plan: Vec<SqlWrite> = Vec::new();
        if touched.cleared {
            plan.push(SqlWrite::ClearNotes);
            plan.push(SqlWrite::ClearKv);
        }
        assert(write_views(plan@) == clear_writes(touched.cleared));
        let ghost cleared = write_views(plan@);
        let ghost mut listing: Seq<Note> = Seq::empty();
        if touched.all_notes {
            let rows = next.all_notes();
            proof {
                listing = rows@;
            }
            let mut i: usize = 0;
            while i < rows.len()
                invariant
                    i <= rows@.len(),
                    write_views(plan@) == cleared + rows_writes(note_views(rows@).take(i as int)),
                decreases rows@.len() - i,
            {
                let row = rows[i].copy();
                let ghost before = write_views(plan@);
                let ghost added = WriteView::PutNote { row: row@ };
                plan.push(SqlWrite::PutNote { row });
                proof {
                    assert(write_views(plan@) == before.push(added));
                    assert(rows_writes(note_views(rows@).take(i + 1)) == rows_writes(
                        note_views(rows@).take(i as int),
                    ).push(added));
                    assert(before.push(added) == cleared + rows_writes(
                        note_views(rows@).take(i + 1),
                    ));
                }
                i = i + 1;
            }
            assert(note_views(rows@).take(i as int) == note_views(rows@));
        } else {
            assert(write_views(plan@) == cleared + rows_writes(note_views(listing)));
        }
        let ghost listed = write_views(plan@);
        assert(listed == clear_writes(touched.cleared) + rows_writes(note_views(listing)));
        if touched.saved_note {
            match reply {
                DbReply::Id(id) => {
                    Self::write_note(next, id.as_str(), &mut plan);
                },
                _ => {
                    assert(listed + Seq::<WriteView>::empty() == listed);
                },
            }
        } else {
            assert(listed + Seq::<WriteView>::empty() == listed);
        }
        let ghost saved = write_views(plan@);
        assert(saved == listed + saved_writes(next@, touched.saved_note, *reply));
        let ghost ids = texts(touched.note_ids@);
        let mut j: usize = 0;
        assert(saved + ids_writes(next@, ids.take(0)) == saved);
        while j < touched.note_ids.len()
            invariant
                j <= touched.note_ids@.len(),
                next.wf(),
                ids == texts(touched.note_ids@),
                write_views(plan@) == saved + ids_writes(next@, ids.take(j as int)),
            decreases touched.note_ids@.len() - j,
        {
            let ghost before = write_views(plan@);
            Self::write_note(next, touched.note_ids[j].as_str(), &mut plan);
            proof {
                let head = ids_writes(next@, ids.take(j as int));
                let here = note_writes(next@, ids[j as int]);
                assert(ids.take(j + 1).drop_last() == ids.take(j as int));
                assert(ids.take(j + 1).last() == ids[j as int]);
                assert(ids_writes(next@, ids.take(j + 1)) == head + here);
                assert(saved + head + here == saved + (head + here));
            }
            j = j + 1;
        }
        assert(ids.take(j as int) == ids);
        let ghost noted = write_views(plan@);
        let ghost keys = texts(touched.keys@);
        let mut k: usize = 0;
        assert(noted + keys_writes(next@, keys.take(0)) == noted);
        while k < touched.keys.len()
            invariant
                k <= touched.keys@.len(),
                next.wf(),
                keys == texts(touched.keys@),
                write_views(plan@) == noted + keys_writes(next@, keys.take(k as int)),
            decreases touched.keys@.len() - k,
        {
            Self::write_entry(next, touched.keys[k].as_str(), &mut plan);
            proof {
                let head = keys_writes(next@, keys.take(k as int));
                let here = entry_writes(next@, keys[k as int]);
                assert(keys.take(k + 1).drop_last() == keys.take(k as int));
                assert(keys.take(k + 1).last() == keys[k as int]);
                assert(keys_writes(next@, keys.take(k + 1)) == head + here);
                assert(noted + head + here == noted + (head + here));
            }
            k = k + 1;
        }
        assert(keys.take(k as int) == keys);
        assert(listing_for(listing, next@, touched.all_notes));
        assert(write_views(plan@) == planned_writes(next@, *touched, *reply, note_views(listing)));
        proof {
            next.lemma_well_keyed();
            lemma_plan_mirrors(before, req, next@, *reply, *touched, listing, write_views(plan@));
        }
        plan
    }

    /// Hands the statements of a plan to the database, first to last, and stops
    /// at the first that the database refuses.
    fn run_writes(&self, plan: &Vec<SqlWrite>) -> (r: Result<(), StoreError>)
        ensures
            r matches Err(e) ==> e == StoreError::Write,
    {
        let mut i: usize = 0;
        while i < plan.len()
            invariant
                i <= plan@.len(),
            decreases plan@.len() - i,
        {
            match &plan[i] {
                SqlWrite::ClearNotes => {
                    executed(sql_execute_batch(&self.conn, SQL_CLEAR_NOTES))?;
                },
                SqlWrite::ClearKv => {
                    executed(sql_execute_batch(&self.conn, SQL_CLEAR_KV))?;
                },
                SqlWrite::PutNote { row } => {
                    written(sql_execute_note(&self.conn, SQL_PUT_NOTE, row))?;
                },
                SqlWrite::PutKv { key, value } => {
                    written(sql_execute_pair(&self.conn, SQL_PUT_KV, key.as_str(), value.as_str()))?;
                },
                SqlWrite::DeleteKv { key } => {
                    written(sql_execute_text(&self.conn, SQL_DELETE_KV, key.as_str()))?;
                },
            }
            i = i + 1;
        }
        Ok(())
    }

    /// Writes a plan to the database, in one transaction. Where any statement
    /// is refused the transaction is abandoned. An empty plan opens no
    /// transaction and cannot fail.
    fn persist(&self, plan: &Vec<SqlWrite>) -> (r: Result<(), StoreError>)
        ensures
            plan@.len() == 0 ==> r is Ok,
            r matches Err(e) ==> e == StoreError::Write,
    {
        if plan.len() == 0 {
            return Ok(());
        }
        executed(sql_execute_batch(&self.conn, SQL_BEGIN))?;
        let mut outcome = self.run_writes(plan);
        if outcome.is_ok() {
            outcome = executed(sql_execute_batch(&self.conn, SQL_COMMIT));
        }
        if outcome.is_err() {
            let _ = sql_execute_batch(&self.conn, SQL_ROLLBACK);
        }
        outcome
    }

    /// Ends a request that changes the tables, given how writing it went: where
    /// it was written the tables in memory become `next` and the reply goes
    /// out; where it was refused the tables stay and the refusal goes out.
    fn settle(&mut self, next: Tables, reply: DbReply, outcome: Result<(), StoreError>) -> (r: Result<
        DbReply,
        StoreError,
    >)
        requires
            next.wf(),
            old(self).wf(),
        ensures
            final(self).wf(),
            match outcome {
                Ok(_) => final(self)@ == next@ && r == Ok::<DbReply, StoreError>(reply),
                Err(e) => final(self)@ == old(self)@ && r == Err::<DbReply, StoreError>(e),
            },
    {
        match outcome {
            Ok(_) => {
                self.tables = next;
                Ok(reply)
            },
            Err(e) => Err(e),
        }
    }

    /// Answers one request: runs the command it names to completion and gives
    /// its reply.
    ///
    /// A request that only reads is answered from memory. A command that
    /// changes the tables is written to the database in one transaction before
    /// the tables in memory change. Where that fails the request is refused
    /// with `Write` and nothing has changed. A command that finds nothing to
    /// change, because the note it names is not there, hands nothing to the
    /// database and cannot fail.
    pub fn handle(&mut self, req: DbRequest) -> (r: Result<DbReply, StoreError>)
        requires
            old(self).wf(),
        ensures
            final(self).wf(),
            match r {
                Ok(reply) => request_outcome(old(self)@, req, final(self)@, reply),
                Err(e) => final(self)@ == old(self)@ && e == StoreError::Write,
            },
            writes_nothing(old(self)@, req) ==> r is Ok,
    {
        let touched = touched_by(&req);
        if !touched.has_changes() {
            return Ok(self.tables.handle(req));
        }
        let ghost request = req;
        let mut next = self.tables.duplicate();
        let reply = next.handle(req);
        let plan = Self::write_touched(
            &next,
            &touched,
            &reply,
            Ghost(old(self)@),
            Ghost(request),
        );
        proof {
            if writes_nothing(old(self)@, req) {
                lemma_nothing_planned(old(self)@, req, next@, reply, touched, write_views(plan@));
            }
        }
        let outcome = self.persist(&plan);
        self.settle(next, reply, outcome)
    }

    /// GetNotes: the live notes (`is_deleted = 0`), latest `updated_at` first.
    pub fn get_notes(&self) -> (r: Result<Vec<Note>, StoreError>)
        requires
            self.wf(),
        ensures
            r matches Ok(list) && lists_exactly(list@, self@.notes, RowFilter::Live) && newest_first(
                list@,
            ),
    {
        Ok(self.tables.get_notes())
    }

    /// GetNote: the row with this id, live or tombstoned, or none.
    pub fn get_note(&self, id: &str) -> (r: Result<Option<Note>, StoreError>)
        requires
            self.wf(),
        ensures
            r matches Ok(found) && match found {
                Some(note) => {
                    &&& self@.notes.contains_key(id@)
                    &&& note@ == self@.notes[id@]
                    &&& note@.id == id@
                },
                None => !self@.notes.contains_key(id@),
            },
    {
        Ok(self.tables.get_note(id))
    }

    /// GetUnsyncedNotes: every row with `is_synced = 0`, tombstones included.
    pub fn get_unsynced_notes(&self) -> (r: Result<Vec<Note>, StoreError>)
        requires
            self.wf(),
        ensures
            r matches Ok(list) && lists_exactly(list@, self@.notes, RowFilter::Unsynced),
    {
        Ok(self.tables.get_unsynced_notes())
    }

    /// GetKV: the value stored under a key, or none where there is no such entry.
    pub fn get_kv(&self, key: &str) -> (r: Result<Option<String>, StoreError>)
        requires
            self.wf(),
        ensures
            r matches Ok(found) && match found {
                Some(value) => self@.kv.contains_key(key@) && value@ == self@.kv[key@],
                None => !self@.kv.contains_key(key@),
            },
    {
        Ok(self.tables.get_kv(key))
    }

    /// The cursor: the value under `last_synced_at`, or `1970-01-01T00:00:00Z`
    /// where the repository has never pulled.
    pub fn get_cursor(&self) -> (r: Result<String, StoreError>)
        requires
            self.wf(),
        ensures
            r matches Ok(cursor) && cursor@ == self@.cursor(),
    {
        Ok(self.tables.get_cursor())
    }

    /// The salt stored under `encryption_salt`, if there is one.
    pub fn get_salt(&self) -> (r: Result<Option<String>, StoreError>)
        requires
            self.wf(),
        ensures
            r matches Ok(found) && match found {
                Some(value) => self@.kv.contains_key(KEY_ENCRYPTION_SALT@) && value@
                    == self@.kv[KEY_ENCRYPTION_SALT@],
                None => !self@.kv.contains_key(KEY_ENCRYPTION_SALT@),
            },
    {
        Ok(self.tables.get_salt())
    }

    /// SaveNote: upserts a note. Where no id is given a fresh UUID is drawn.
    /// The row becomes live and unsynced, with this content, stamped with the
    /// current time. Returns the id under which the note is stored.
    pub fn save_note(&mut self, id: Option<String>, content: String, is_encrypted: bool) -> (r: Result<
        String,
        StoreError,
    >)
        requires
            old(self).wf(),
        ensures
            final(self).wf(),
            match r {
                Ok(saved) => {
                    &&& id matches Some(given) ==> saved@ == given@
                    &&& exists|now: Seq<char>|
                        final(self)@ == #[trigger] old(self)@.save_note(
                            saved@,
                            content@,
                            is_encrypted,
                            now,
                        )
                },
                Err(e) => final(self)@ == old(self)@ && e == StoreError::Write,
            },
    {
        let ghost given = id_view(id);
        let ghost text = content@;
        match self.handle(DbRequest::SaveNote { id, content, is_encrypted }) {
            Ok(DbReply::Id(saved)) => {
                assert(save_note_outcome(
                    old(self)@,
                    given,
                    text,
                    is_encrypted,
                    self@,
                    DbReply::Id(saved),
                ));
                assert(given matches Some(held) ==> saved@ == held);
                assert(exists|now: Seq<char>|
                    self@ == #[trigger] old(self)@.save_note(saved@, text, is_encrypted, now));
                let r = Ok(saved);
                assert(r matches Ok(s) && s@ == saved@);
                assert(given == id_view(id));
                assert(id matches Some(g) ==> given == Some(g@));
                r
            },
            Ok(_) => {
                assert(false);
                Err(StoreError::Write)
            },
            Err(e) => Err(e),
        }
    }

    /// DeleteNote: a soft delete. The row under `id`, if there is one, becomes
    /// an unsynced tombstone stamped with the current time. Where there is no
    /// such row nothing is written and the request succeeds.
    pub fn delete_note(&mut self, id: String) -> (r: Result<(), StoreError>)
        requires
            old(self).wf(),
        ensures
            final(self).wf(),
            match r {
                Ok(_) => exists|now: Seq<char>|
                    final(self)@ == #[trigger] old(self)@.delete_note(id@, now),
                Err(e) => final(self)@ == old(self)@ && e == StoreError::Write,
            },
            !old(self)@.notes.contains_key(id@) ==> r is Ok,
    {
        let ghost gone = id@;
        match self.handle(DbRequest::DeleteNote { id }) {
            Ok(reply) => {
                assert(delete_note_outcome(old(self)@, gone, self@, reply));
                Ok(())
            },
            Err(e) => Err(e),
        }
    }

    /// MarkAsSynced: the row under `id`, if there is one, becomes synced.
    /// Where there is no such row nothing is written and the request succeeds.
    pub fn mark_as_synced(&mut self, id: String) -> (r: Result<(), StoreError>)
        requires
            old(self).wf(),
        ensures
            final(self).wf(),
            match r {
                Ok(_) => final(self)@ == old(self)@.mark_as_synced(id@),
                Err(e) => final(self)@ == old(self)@ && e == StoreError::Write,
            },
            !old(self)@.notes.contains_key(id@) ==> r is Ok,
    {
        match self.handle(DbRequest::MarkAsSynced { id }) {
            Ok(_) => Ok(()),
            Err(e) => Err(e),
        }
    }

    /// PullUpsertNotes: applies a pulled batch and stores its cursor, as one
    /// transaction.
    ///
    /// The notes are applied first to last. An incoming note replaces the stored
    /// row only if there is none under its id or its `updated_at` is strictly
    /// later; a note that replaces a row is marked synced. Then the cursor is
    /// stored under `last_synced_at`. Either all of this happens, or, where the
    /// request is refused, none of it.
    pub fn pull_upsert_notes(&mut self, notes: Vec<Note>, cursor: String) -> (r: Result<
        (),
        StoreError,
    >)
        requires
            old(self).wf(),
        ensures
            final(self).wf(),
            match r {
                Ok(_) => {
                    &&& final(self)@ == old(self)@.pull_upsert(note_views(notes@), cursor@)
                    &&& final(self)@.cursor() == cursor@
                },
                Err(e) => final(self)@ == old(self)@ && e == StoreError::Write,
            },
    {
        match self.handle(DbRequest::PullUpsertNotes { notes, cursor }) {
            Ok(_) => Ok(()),
            Err(e) => Err(e),
        }
    }

    /// SetKV: stores a value under a key, replacing the value that was there.
    pub fn set_kv(&mut self, key: &str, value: &str) -> (r: Result<(), StoreError>)
        requires
            old(self).wf(),
        ensures
            final(self).wf(),
            match r {
                Ok(_) => final(self)@.notes == old(self)@.notes && final(self)@.kv
                    == old(self)@.kv.insert(key@, value@),
                Err(e) => final(self)@ == old(self)@ && e == StoreError::Write,
            },
    {
        match self.handle(
            DbRequest::SetKV { key: str_to_string(key), value: str_to_string(value) },
        ) {
            Ok(_) => Ok(()),
            Err(e) => Err(e),
        }
    }

    /// DeleteKV: removes the entry under a key, if there is one.
    pub fn delete_kv(&mut self, key: &str) -> (r: Result<(), StoreError>)
        requires
            old(self).wf(),
        ensures
            final(self).wf(),
            match r {
                Ok(_) => final(self)@.notes == old(self)@.notes && final(self)@.kv
                    == old(self)@.kv.remove(key@),
                Err(e) => final(self)@ == old(self)@ && e == StoreError::Write,
            },
    {
        match self.handle(DbRequest::DeleteKV { key: str_to_string(key) }) {
            Ok(_) => Ok(()),
            Err(e) => Err(e),
        }
    }

    /// Stores the cursor under `last_synced_at`.
    pub fn set_last_synced(&mut self, cursor: &str) -> (r: Result<(), StoreError>)
        requires
            old(self).wf(),
        ensures
            final(self).wf(),
            match r {
                Ok(_) => {
                    &&& final(self)@.notes == old(self)@.notes
                    &&& final(self)@.kv == old(self)@.kv.insert(KEY_LAST_SYNCED_AT@, cursor@)
                    &&& final(self)@.cursor() == cursor@
                },
                Err(e) => final(self)@ == old(self)@ && e == StoreError::Write,
            },
    {
        self.set_kv(KEY_LAST_SYNCED_AT, cursor)
    }

    /// Stores the salt under `encryption_salt`.
    pub fn set_salt(&mut self, salt: &str) -> (r: Result<(), StoreError>)
        requires
            old(self).wf(),
        ensures
            final(self).wf(),
            match r {
                Ok(_) => final(self)@.notes == old(self)@.notes && final(self)@.kv
                    == old(self)@.kv.insert(KEY_ENCRYPTION_SALT@, salt@),
                Err(e) => final(self)@ == old(self)@ && e == StoreError::Write,
            },
    {
        self.set_kv(KEY_ENCRYPTION_SALT, salt)
    }

    /// Removes the entry under `encryption_salt`.
    pub fn delete_salt(&mut self) -> (r: Result<(), StoreError>)
        requires
            old(self).wf(),
        ensures
            final(self).wf(),
            match r {
                Ok(_) => {
                    &&& final(self)@.notes == old(self)@.notes
                    &&& final(self)@.kv == old(self)@.kv.remove(KEY_ENCRYPTION_SALT@)
                    &&& !final(self)@.kv.contains_key(KEY_ENCRYPTION_SALT@)
                },
                Err(e) => final(self)@ == old(self)@ && e == StoreError::Write,
            },
    {
        self.delete_kv(KEY_ENCRYPTION_SALT)
    }

    /// ClearAllData: removes every row of both tables.
    pub fn clear_all_data(&mut self) -> (r: Result<(), StoreError>)
        requires
            old(self).wf(),
        ensures
            final(self).wf(),
            match r {
                Ok(_) => final(self)@.notes == Map::<Seq<char>, NoteView>::empty() && final(self)@.kv
                    == Map::<Seq<char>, Seq<char>>::empty(),
                Err(e) => final(self)@ == old(self)@ && e == StoreError::Write,
            },
    {
        match self.handle(DbRequest::ClearAllData) {
            Ok(_) => Ok(()),
            Err(e) => Err(e),
        }
    }

    /// SetNotesEncryptedStatus: every live note gets the flag and becomes
    /// unsynced, so that it is sent again. Tombstones stay as they are. Where
    /// the notes table is empty nothing is written and the request succeeds.
    pub fn set_notes_encrypted_status(&mut self, is_encrypted: i32) -> (r: Result<(), StoreError>)
        requires
            old(self).wf(),
        ensures
            final(self).wf(),
            match r {
                Ok(_) => final(self)@ == old(self)@.set_encrypted_status(is_encrypted),
                Err(e) => final(self)@ == old(self)@ && e == StoreError::Write,
            },
            (forall|id: Seq<char>| !old(self)@.notes.contains_key(id)) ==> r is Ok,
    {
        match self.handle(DbRequest::SetNotesEncryptedStatus { is_encrypted }) {
            Ok(_) => Ok(()),
            Err(e) => Err(e),
        }
    }
}

} // verus!
