//! Trusted boundary to the relational store.
//!
//! Everything in this module is a thin wrapper around one rusqlite call (or
//! one fixed statement sequence) together with the contract the library
//! relies on. The store's contents are modelled by two names below:
//! `committed_clips` is what the store durably holds as seen through one
//! connection, and `open_tx` is the staged contents of that connection's
//! open transaction, if any. The model describes the store as seen through
//! a single connection; writes arriving through a different connection to
//! the same file are outside it (the engine serializes them, the library
//! does not observe them mid-use).

use vstd::prelude::*;

use crate::model::{ClipModel, PayloadModel, count_hash, wf_clips, has_hash, clip_of,
    payloads_of, window_of, without_hash};
use crate::models::ClipboardPayload;
use rusqlite::OptionalExtension;

verus! {

#[verifier::external_type_specification]
#[verifier::external_body]
pub struct ExConnection(rusqlite::Connection);

#[verifier::external_type_specification]
#[verifier::external_body]
pub struct ExSqliteError(rusqlite::Error);

/// The records the store durably holds, oldest first, as this connection
/// sees them.
pub uninterp spec fn committed_clips(conn: rusqlite::Connection) -> Seq<ClipModel>;

/// The staged records of this connection's open transaction, if one is open.
pub uninterp spec fn open_tx(conn: rusqlite::Connection) -> Option<Seq<ClipModel>>;

/// Whether this connection has a transaction open.
pub open spec fn in_tx(conn: rusqlite::Connection) -> bool {
    open_tx(conn) is Some
}

/// The records a statement on this connection sees now: the staged records
/// inside a transaction, the committed ones otherwise.
pub open spec fn cur_clips(conn: rusqlite::Connection) -> Seq<ClipModel> {
    match open_tx(conn) {
        Some(t) => t,
        None => committed_clips(conn),
    }
}

/// One row of a pagination query, before its preview is derived.
pub struct WindowRow {
    pub timestamp: String,
    pub owner: String,
    pub fg_title: String,
    pub hash: String,
}

/// Relies on rusqlite's `Connection::open`: opens (creating if absent) the
/// database file at `path` with no transaction pending (a fresh connection
/// is in autocommit). Nothing is assumed about the file's contents; a
/// handle is only handed out after `wf_violation_rows` reports them well
/// formed.
#[verifier::external_body]
pub(crate) fn open_db(path: &str) -> (r: Result<rusqlite::Connection, rusqlite::Error>)
    ensures
        r matches Ok(c) ==> !in_tx(c),
{
    rusqlite::Connection::open(path)
}

/// Relies on rusqlite's `Connection::query_row` over one `SELECT` that
/// counts the ways a store can be malformed: content hashes shared by two
/// records, row ids shared by two records, and records without a payload
/// row. A count of zero means the store, read as this module's other
/// wrappers read it, is well formed; a store written by anything but this
/// library's insert path can carry violations, and gets a positive count.
#[verifier::external_body]
pub(crate) fn wf_violation_rows(conn: &rusqlite::Connection) -> (r: Result<i64, rusqlite::Error>)
    requires
        !in_tx(*conn),
    ensures
        r matches Ok(n) ==> n >= 0 && (n == 0 ==> wf_clips(cur_clips(*conn))),
{
    conn.query_row(
        "SELECT
            (SELECT COUNT(*) FROM
                (SELECT content_hash FROM clips GROUP BY content_hash HAVING COUNT(*) > 1))
          + (SELECT COUNT(*) FROM
                (SELECT id FROM clips GROUP BY id HAVING COUNT(*) > 1))
          + (SELECT COUNT(*) FROM clips WHERE NOT EXISTS
                (SELECT 1 FROM formats WHERE formats.clip_id = clips.id))",
        (),
        |row| row.get(0),
    )
}

/// Relies on rusqlite's `Connection::pragma_update`: issues a single
/// `PRAGMA name = value` statement, which configures the connection and
/// changes no table row.
#[verifier::external_body]
pub(crate) fn pragma_str(conn: &rusqlite::Connection, name: &str, value: &str) -> (r: Result<
    (),
    rusqlite::Error,
>)
    requires
        !in_tx(*conn),
{
    conn.pragma_update(None, name, value)
}

/// Relies on rusqlite's `Connection::pragma_update` (integer value); see
/// `pragma_str`.
#[verifier::external_body]
pub(crate) fn pragma_u32(conn: &rusqlite::Connection, name: &str, value: u32) -> (r: Result<
    (),
    rusqlite::Error,
>)
    requires
        !in_tx(*conn),
{
    conn.pragma_update(None, name, value)
}

/// Relies on rusqlite's `Connection::pragma_update` (boolean value); see
/// `pragma_str`.
#[verifier::external_body]
pub(crate) fn pragma_bool(conn: &rusqlite::Connection, name: &str, value: bool) -> (r: Result<
    (),
    rusqlite::Error,
>)
    requires
        !in_tx(*conn),
{
    conn.pragma_update(None, name, value)
}

/// Relies on rusqlite's `Connection::execute` running two
/// `CREATE TABLE IF NOT EXISTS` statements: they create the `clips` and
/// `formats` tables when missing and add no row to either.
#[verifier::external_body]
pub(crate) fn create_schema(conn: &rusqlite::Connection) -> (r: Result<(), rusqlite::Error>)
    requires
        !in_tx(*conn),
{
    conn.execute(
        "CREATE TABLE IF NOT EXISTS clips (
            id INTEGER PRIMARY KEY AUTOINCREMENT,
            owner_process_name TEXT,
            foreground_window_title TEXT,
            exe_path TEXT,
            content_hash TEXT,
            is_sensitive INTEGER DEFAULT 0,
            timestamp DATETIME DEFAULT CURRENT_TIMESTAMP
        )",
        (),
    )?;
    conn.execute(
        "CREATE TABLE IF NOT EXISTS formats (
            id INTEGER PRIMARY KEY AUTOINCREMENT,
            clip_id INTEGER,
            format_id INTEGER,
            format_name TEXT,
            data BLOB,
            FOREIGN KEY(clip_id) REFERENCES clips(id) ON DELETE CASCADE
        )",
        (),
    )?;
    Ok(())
}

/// Relies on SQLite's `BEGIN` via `Connection::execute_batch`: opens a
/// transaction whose staged contents start as the committed contents.
#[verifier::external_body]
pub(crate) fn begin_tx(conn: &mut rusqlite::Connection) -> (r: Result<(), rusqlite::Error>)
    requires
        !in_tx(*old(conn)),
    ensures
        committed_clips(*final(conn)) == committed_clips(*old(conn)),
        r is Ok ==> open_tx(*final(conn)) == Some(committed_clips(*old(conn))),
        r is Err ==> !in_tx(*final(conn)),
{
    conn.execute_batch("BEGIN")
}

/// Relies on SQLite's `COMMIT` via `Connection::execute_batch`: on success
/// the staged contents become the committed contents; on failure nothing is
/// committed (the transaction may or may not remain open).
#[verifier::external_body]
pub(crate) fn commit_tx(conn: &mut rusqlite::Connection) -> (r: Result<(), rusqlite::Error>)
    requires
        in_tx(*old(conn)),
    ensures
        r is Ok ==> !in_tx(*final(conn)) && committed_clips(*final(conn)) == cur_clips(
            *old(conn),
        ),
        r is Err ==> committed_clips(*final(conn)) == committed_clips(*old(conn)),
{
    conn.execute_batch("COMMIT")
}

/// Relies on SQLite's `ROLLBACK` via `Connection::execute_batch`: discards
/// any open transaction, leaving the committed contents untouched. When no
/// transaction is open (for instance because an error already rolled it
/// back), the statement fails and changes nothing; the failure is ignored.
#[verifier::external_body]
pub(crate) fn rollback_tx(conn: &mut rusqlite::Connection)
    ensures
        !in_tx(*final(conn)),
        committed_clips(*final(conn)) == committed_clips(*old(conn)),
{
    let _ = conn.execute_batch("ROLLBACK");
}

/// Relies on rusqlite's `Connection::query_row` running
/// `SELECT COUNT(1) FROM clips WHERE content_hash = ?`: the count of
/// records carrying that hash, as the current statement view has them. On
/// success nothing changes; on failure nothing is committed, though an
/// erroring statement may have ended an open transaction.
#[verifier::external_body]
pub(crate) fn count_hash_rows(conn: &mut rusqlite::Connection, hash: &str) -> (r: Result<
    i64,
    rusqlite::Error,
>)
    ensures
        committed_clips(*final(conn)) == committed_clips(*old(conn)),
        r matches Ok(n) ==> open_tx(*final(conn)) == open_tx(*old(conn)) && n as int == count_hash(
            cur_clips(*old(conn)),
            hash@,
        ),
        r is Err ==> open_tx(*final(conn)) == open_tx(*old(conn)) || !in_tx(*final(conn)),
{
    conn.query_row("SELECT COUNT(1) FROM clips WHERE content_hash = ?1", [hash], |row| row.get(0))
}

/// Relies on rusqlite's `Connection::query_row` running
/// `SELECT COUNT(*) FROM clips`: the number of records. The driver reports
/// an error rather than truncating a count that does not fit the column
/// type.
#[verifier::external_body]
pub(crate) fn count_all_rows(conn: &rusqlite::Connection) -> (r: Result<i32, rusqlite::Error>)
    requires
        !in_tx(*conn),
    ensures
        r matches Ok(n) ==> n as int == cur_clips(*conn).len(),
{
    conn.query_row("SELECT COUNT(*) FROM clips", (), |row| row.get(0))
}

/// Relies on rusqlite's `Connection::execute` running an `INSERT` into
/// `clips` followed by `Connection::last_insert_rowid`: on success exactly
/// one record with the given fields and no payload rows yet is appended,
/// and the returned rowid is the new record's id, which `AUTOINCREMENT`
/// makes distinct from every id already present. On failure nothing is
/// committed.
#[verifier::external_body]
pub(crate) fn insert_clip_row(
    conn: &mut rusqlite::Connection,
    owner: &str,
    fg_title: &str,
    exe_path: &str,
    hash: &str,
) -> (r: Result<i64, rusqlite::Error>)
    requires
        in_tx(*old(conn)),
    ensures
        committed_clips(*final(conn)) == committed_clips(*old(conn)),
        r matches Ok(id) ==> {
            &&& in_tx(*final(conn))
            &&& cur_clips(*final(conn)).len() == cur_clips(*old(conn)).len() + 1
            &&& cur_clips(*final(conn)).take(cur_clips(*old(conn)).len() as int) == cur_clips(
                *old(conn),
            )
            &&& cur_clips(*final(conn)).last().owner == owner@
            &&& cur_clips(*final(conn)).last().fg_title == fg_title@
            &&& cur_clips(*final(conn)).last().exe_path == exe_path@
            &&& cur_clips(*final(conn)).last().hash == hash@
            &&& cur_clips(*final(conn)).last().payloads == Seq::<PayloadModel>::empty()
            &&& cur_clips(*final(conn)).last().id == id as int
            &&& forall|i: int|
                0 <= i < cur_clips(*old(conn)).len() ==> cur_clips(*old(conn))[i].id != id as int
        },
{
    conn.execute(
        "INSERT INTO clips (owner_process_name, foreground_window_title, exe_path, content_hash)
         VALUES (?1, ?2, ?3, ?4)",
        (owner, fg_title, exe_path, hash),
    )?;
    Ok(conn.last_insert_rowid())
}

/// Relies on rusqlite's `Connection::execute` running an `INSERT` into
/// `formats`: on success one payload row with the given fields is appended
/// to the record whose id is `clip_id` — under the precondition, the last
/// staged record, since the `clips` primary key makes ids unique. On
/// failure nothing is committed.
#[verifier::external_body]
pub(crate) fn insert_payload_row(
    conn: &mut rusqlite::Connection,
    clip_id: i64,
    format_id: u32,
    format_name: &str,
    data: &[u8],
) -> (r: Result<(), rusqlite::Error>)
    requires
        in_tx(*old(conn)),
        cur_clips(*old(conn)).len() > 0,
        cur_clips(*old(conn)).last().id == clip_id as int,
    ensures
        committed_clips(*final(conn)) == committed_clips(*old(conn)),
        r is Ok ==> {
            &&& in_tx(*final(conn))
            &&& cur_clips(*final(conn)) == cur_clips(*old(conn)).update(
                cur_clips(*old(conn)).len() - 1,
                ClipModel {
                    payloads: cur_clips(*old(conn)).last().payloads.push(
                        PayloadModel { format_id, format_name: format_name@, data: data@ },
                    ),
                    ..cur_clips(*old(conn)).last()
                },
            )
        },
{
    conn.execute(
        "INSERT INTO formats (clip_id, format_id, format_name, data) VALUES (?1, ?2, ?3, ?4)",
        (clip_id, format_id, format_name, data),
    )?;
    Ok(())
}

/// Relies on rusqlite's `Statement::query_map` over
/// `SELECT ... FROM clips ORDER BY id DESC LIMIT ? OFFSET ?`: the reported
/// rows are the requested window of records, newest first. Row ids are
/// assigned by `AUTOINCREMENT` in insertion order, and the timestamp column
/// defaults to the insertion time, so descending id order is descending
/// timestamp order.
#[verifier::external_body]
pub(crate) fn window_rows(conn: &rusqlite::Connection, limit: i64, offset: i64) -> (r: Result<
    Vec<WindowRow>,
    rusqlite::Error,
>)
    requires
        !in_tx(*conn),
        limit >= 0,
        offset >= 0,
    ensures
        r matches Ok(v) ==> {
            let w = window_of(cur_clips(*conn), limit as int, offset as int);
            &&& v@.len() == w.len()
            &&& forall|i: int|
                0 <= i < w.len() ==> {
                    &&& (#[trigger] v@[i]).timestamp@ == w[i].timestamp
                    &&& v@[i].owner@ == w[i].owner
                    &&& v@[i].fg_title@ == w[i].fg_title
                    &&& v@[i].hash@ == w[i].hash
                }
        },
{
    let mut stmt = conn.prepare(
        "SELECT timestamp, owner_process_name, foreground_window_title, content_hash
         FROM clips ORDER BY id DESC LIMIT ?1 OFFSET ?2",
    )?;
    let rows = stmt.query_map((limit, offset), |row| {
        Ok(WindowRow {
            timestamp: row.get(0)?,
            owner: row.get(1)?,
            fg_title: row.get(2)?,
            hash: row.get(3)?,
        })
    })?;
    rows.collect()
}

/// Relies on rusqlite's `Statement::query_map` over
/// `SELECT ... FROM formats WHERE clip_id = (SELECT id FROM clips WHERE
/// content_hash = ?) ORDER BY id`: the payload rows of the record carrying
/// the hash, in insertion order, or no rows when the hash is absent.
#[verifier::external_body]
pub(crate) fn payload_rows(conn: &rusqlite::Connection, hash: &str) -> (r: Result<
    Vec<ClipboardPayload>,
    rusqlite::Error,
>)
    requires
        !in_tx(*conn),
        wf_clips(cur_clips(*conn)),
    ensures
        r matches Ok(v) ==> v@.map_values(|p: ClipboardPayload| p@) == payloads_of(
            cur_clips(*conn),
            hash@,
        ),
{
    let mut stmt = conn.prepare(
        "SELECT format_id, format_name, data FROM formats
         WHERE clip_id = (SELECT id FROM clips WHERE content_hash = ?1) ORDER BY id",
    )?;
    let rows = stmt.query_map([hash], |row| {
        Ok(ClipboardPayload { format_id: row.get(0)?, format_name: row.get(1)?, data: row.get(2)? })
    })?;
    rows.collect()
}

/// Relies on rusqlite's `Connection::query_row` with `optional()` over
/// `SELECT ... FROM clips WHERE content_hash = ?`: the context columns of
/// the record carrying the hash, or `None` when the hash is absent.
#[verifier::external_body]
pub(crate) fn meta_row(conn: &rusqlite::Connection, hash: &str) -> (r: Result<
    Option<(String, String, String)>,
    rusqlite::Error,
>)
    requires
        !in_tx(*conn),
        wf_clips(cur_clips(*conn)),
    ensures
        r matches Ok(m) ==> {
            &&& m is Some <==> has_hash(cur_clips(*conn), hash@)
            &&& m matches Some(t) ==> {
                &&& t.0@ == clip_of(cur_clips(*conn), hash@).owner
                &&& t.1@ == clip_of(cur_clips(*conn), hash@).fg_title
                &&& t.2@ == clip_of(cur_clips(*conn), hash@).exe_path
            }
        },
{
    conn.query_row(
        "SELECT owner_process_name, foreground_window_title, exe_path
         FROM clips WHERE content_hash = ?1",
        [hash],
        |row| Ok((row.get(0)?, row.get(1)?, row.get(2)?)),
    ).optional()
}

/// Relies on rusqlite's `Statement::query_map` over
/// `SELECT content_hash FROM clips ORDER BY id`: every record's hash, in
/// insertion order.
#[verifier::external_body]
pub(crate) fn all_hash_rows(conn: &rusqlite::Connection) -> (r: Result<
    Vec<String>,
    rusqlite::Error,
>)
    requires
        !in_tx(*conn),
    ensures
        r matches Ok(v) ==> {
            &&& v@.len() == cur_clips(*conn).len()
            &&& forall|i: int|
                0 <= i < v@.len() ==> (#[trigger] v@[i])@ == cur_clips(*conn)[i].hash
        },
{
    let mut stmt = conn.prepare("SELECT content_hash FROM clips ORDER BY id")?;
    let rows = stmt.query_map((), |row| row.get(0))?;
    rows.collect()
}

/// Relies on rusqlite's `Connection::execute` running
/// `DELETE FROM clips WHERE content_hash = ?`: one autocommitted statement
/// that removes every record with that hash — and, through the cascading
/// foreign key, their payload rows — or, on failure, nothing.
#[verifier::external_body]
pub(crate) fn delete_hash_rows(conn: &mut rusqlite::Connection, hash: &str) -> (r: Result<
    (),
    rusqlite::Error,
>)
    requires
        !in_tx(*old(conn)),
    ensures
        !in_tx(*final(conn)),
        r is Ok ==> committed_clips(*final(conn)) == without_hash(
            committed_clips(*old(conn)),
            hash@,
        ),
        r is Err ==> committed_clips(*final(conn)) == committed_clips(*old(conn)),
{
    conn.execute("DELETE FROM clips WHERE content_hash = ?1", [hash])?;
    Ok(())
}

/// Relies on rusqlite's `Connection::execute` running `DELETE FROM clips`:
/// one autocommitted statement that removes every record and, through the
/// cascading foreign key, every payload row — or, on failure, nothing.
#[verifier::external_body]
pub(crate) fn delete_all_rows(conn: &mut rusqlite::Connection) -> (r: Result<
    (),
    rusqlite::Error,
>)
    requires
        !in_tx(*old(conn)),
    ensures
        !in_tx(*final(conn)),
        r is Ok ==> committed_clips(*final(conn)) == Seq::<ClipModel>::empty(),
        r is Err ==> committed_clips(*final(conn)) == committed_clips(*old(conn)),
{
    conn.execute("DELETE FROM clips", ())?;
    Ok(())
}

} // verus!
