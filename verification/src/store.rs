use chrono::Datelike;
use crate::batch::Batch;
use crate::codec::{encode_batches_text, decode_batches, parse_batches, str_to_chars, views_of};
use crate::date::{Date, DAY_NUMBER_ABS_MAX, DAY_NUMBER_STORE_ABS_MAX};
use crate::session::IncubationSession;
use vstd::multiset::Multiset;
use vstd::prelude::*;

verus! {

broadcast use vstd::seq_lib::group_to_multiset_ensures, vstd::multiset::group_multiset_axioms;

/// Why a store operation failed.  Store errors abort the one call that hit
/// them; the in-memory model is refreshed by re-reading, never patched.
#[derive(Debug, Clone, Copy, PartialEq, Eq, Structural)]
pub enum StoreError {
    /// The backing database could not be opened or its table created.
    Unavailable,
    /// A write (insert or delete) failed.
    Write,
    /// A read failed.
    Read,
}

/// Why creating a session was refused.  Validation errors are raised before
/// any store call, so a refused creation leaves the store untouched.
#[derive(Debug, Clone, Copy, PartialEq, Eq, Structural)]
pub enum CreateSessionError {
    EmptyName,
    NoBatches,
    ZeroEggCount,
    StartDateOutOfRange,
    Storage(StoreError),
}

/// One raw row of the sessions table, before the batches blob is decoded:
/// identifier, name, start date as a day number, and the blob text.
#[derive(Debug, Clone)]
pub struct SessionRow {
    pub id: i64,
    pub name: String,
    pub start_days: i64,
    pub batches_blob: String,
}

#[verifier::external_type_specification]
#[verifier::external_body]
pub struct ExConnection(rusqlite::Connection);

/// Relies on `rusqlite::Connection::open`: opens the database file at
/// `path`, creating it if absent.  Every failure is mapped to
/// `Unavailable`.
#[verifier::external_body]
fn ex_open(path: &str) -> (r: Result<rusqlite::Connection, StoreError>)
    ensures
        r matches Err(e) ==> e == StoreError::Unavailable,
{
    rusqlite::Connection::open(path).map_err(|_| StoreError::Unavailable)
}

/// Relies on `rusqlite::Connection::execute`: runs the idempotent CREATE
/// TABLE statement for the sessions table.  Every failure is mapped to
/// `Unavailable`.
#[verifier::external_body]
fn ex_create_table(conn: &rusqlite::Connection) -> (r: Result<(), StoreError>)
    ensures
        r matches Err(e) ==> e == StoreError::Unavailable,
{
    let res = conn.execute(
        "CREATE TABLE IF NOT EXISTS sessions (
            id          INTEGER PRIMARY KEY,
            name        TEXT NOT NULL,
            start_date  DATE NOT NULL,
            batches     TEXT NOT NULL
        )",
        (),
    );
    res.map(|_| ()).map_err(|_| StoreError::Unavailable)
}

/// Relies on `rusqlite::Connection::execute` (INSERT) and
/// `Connection::last_insert_rowid`.  The start date goes through
/// `chrono::NaiveDate::from_num_days_from_ce_opt`, which accepts every day
/// number that `requires` admits, since those lie strictly inside the
/// calendar library's documented range of roughly 262,000 years either way.
#[verifier::external_body]
fn ex_insert_row(conn: &rusqlite::Connection, name: &str, start_days: i64, blob: &str) -> (r:
    Result<i64, StoreError>)
    requires
        -DAY_NUMBER_STORE_ABS_MAX <= start_days <= DAY_NUMBER_STORE_ABS_MAX,
    ensures
        r matches Err(e) ==> e == StoreError::Write,
{
    let date = match chrono::NaiveDate::from_num_days_from_ce_opt(start_days as i32) {
        Some(d) => d,
        None => return Err(StoreError::Write),
    };
    let res = conn.execute(
        "INSERT INTO sessions (name, start_date, batches) VALUES (?1, ?2, ?3)",
        (&name, &date, &blob),
    );
    res.map(|_| conn.last_insert_rowid()).map_err(|_| StoreError::Write)
}

/// Relies on `rusqlite::Connection::execute` (DELETE): returns how many rows
/// matched; a DELETE that matches nothing succeeds with 0.  Every failure
/// is mapped to `Write`.
#[verifier::external_body]
fn ex_delete_row(conn: &rusqlite::Connection, id: i64) -> (r: Result<usize, StoreError>)
    ensures
        r matches Err(e) ==> e == StoreError::Write,
{
    conn.execute("DELETE FROM sessions WHERE id = ?1", [id]).map_err(|_| StoreError::Write)
}

/// Relies on `rusqlite::Connection::prepare`, `Statement::query_map` and the
/// row getters: hands every row of the sessions table out as plain values.
/// The start date is converted by `chrono::Datelike::num_days_from_ce`,
/// whose result is bounded by the calendar library's documented date range
/// of roughly 262,000 years either way, hence the bound in `ensures`.
#[verifier::external_body]
fn ex_query_rows(conn: &rusqlite::Connection) -> (r: Result<Vec<SessionRow>, StoreError>)
    ensures
        r matches Ok(rows) ==> forall|i: int|
            0 <= i < rows@.len() ==> -DAY_NUMBER_ABS_MAX <= #[trigger] rows@[i].start_days
                <= DAY_NUMBER_ABS_MAX,
        r matches Err(e) ==> e == StoreError::Read,
{
    let res = (|| -> rusqlite::Result<Vec<SessionRow>> {
        let mut stmt = conn.prepare(
            "SELECT id, name, start_date, batches FROM sessions ORDER BY start_date DESC",
        )?;
        let rows = stmt.query_map([], |row| {
            Ok(SessionRow {
                id: row.get(0)?,
                name: row.get(1)?,
                start_days: row.get::<_, chrono::NaiveDate>(2)?.num_days_from_ce() as i64,
                batches_blob: row.get(3)?,
            })
        })?;
        rows.collect()
    })();
    res.map_err(|_| StoreError::Read)
}

/// Opens (creating if necessary) the database file backing the store.  A
/// failure here is the fatal startup error of the error taxonomy.
pub fn open_db_connection(path: &str) -> (r: Result<rusqlite::Connection, StoreError>)
    ensures
        r matches Err(e) ==> e == StoreError::Unavailable,
{
    ex_open(path)
}

/// Idempotently ensures the sessions table exists; a no-op when it already
/// does.  Treated as fatal at startup by callers when it fails.
pub fn init_db(conn: &rusqlite::Connection) -> (r: Result<(), StoreError>)
    ensures
        r matches Err(e) ==> e == StoreError::Unavailable,
{
    ex_create_table(conn)
}

/// Appends one row for `session`, encoding its batch list into the blob
/// column, and returns the store-assigned identifier.  The caller assigns
/// that identifier back onto the in-memory session.
pub fn add_session_to_db(conn: &rusqlite::Connection, session: &IncubationSession) -> (r: Result<
    i64,
    StoreError,
>)
    requires
        session.start_date.storable(),
    ensures
        r matches Err(e) ==> e == StoreError::Write,
{
    let blob = encode_batches_text(&session.batches);
    ex_insert_row(conn, session.name.as_str(), session.start_date.day_number(), blob.as_str())
}

/// Removes the row with identifier `id`.  Removing an identifier that is
/// not present succeeds and reports 0 rows gone.
pub fn remove_session_from_db(conn: &rusqlite::Connection, id: i64) -> (r: Result<
    usize,
    StoreError,
>)
    ensures
        r matches Err(e) ==> e == StoreError::Write,
{
    ex_delete_row(conn, id)
}

/// How a loaded session relates to the raw row it came from: identifier,
/// name and start date are carried over as they are; the batch list is the
/// decoded blob, or empty when the blob is not in the encoding — a corrupted
/// row still appears, it never hides the whole listing.
pub open spec fn session_matches_row(s: IncubationSession, row: SessionRow) -> bool {
    &&& s.id == row.id
    &&& s.name@ == row.name@
    &&& s.start_date.day_number == row.start_days
    &&& match parse_batches(row.batches_blob@) {
        Some(bs) => views_of(s.batches@) == bs,
        None => s.batches@.len() == 0,
    }
}

/// Identifiers of the rows whose blob is not in the encoding, in row
/// order.
pub open spec fn undecodable_ids(rows: Seq<SessionRow>) -> Seq<i64>
    decreases rows.len(),
{
    if rows.len() == 0 {
        Seq::empty()
    } else {
        (if parse_batches(rows[0].batches_blob@) is None {
            seq![rows[0].id]
        } else {
            Seq::<i64>::empty()
        }) + undecodable_ids(rows.skip(1))
    }
}

proof fn lemma_undecodable_ids_push(rows: Seq<SessionRow>, r: SessionRow)
    ensures
        undecodable_ids(rows.push(r)) == undecodable_ids(rows) + (if parse_batches(
            r.batches_blob@,
        ) is None {
            seq![r.id]
        } else {
            Seq::<i64>::empty()
        }),
    decreases rows.len(),
{
    let t = rows.push(r);
    let suffix = if parse_batches(r.batches_blob@) is None {
        seq![r.id]
    } else {
        Seq::<i64>::empty()
    };
    assert(t.len() == rows.len() + 1);
    assert(undecodable_ids(t) == (if parse_batches(t[0].batches_blob@) is None {
        seq![t[0].id]
    } else {
        Seq::<i64>::empty()
    }) + undecodable_ids(t.skip(1)));
    if rows.len() == 0 {
        assert(t[0] == r);
        assert(t.skip(1) =~= Seq::<SessionRow>::empty());
        assert(undecodable_ids(Seq::<SessionRow>::empty()) == Seq::<i64>::empty());
        assert(undecodable_ids(t) =~= undecodable_ids(rows) + suffix);
    } else {
        assert(t[0] == rows[0]);
        assert(t.skip(1) =~= rows.skip(1).push(r));
        lemma_undecodable_ids_push(rows.skip(1), r);
        assert(undecodable_ids(rows) == (if parse_batches(rows[0].batches_blob@) is None {
            seq![rows[0].id]
        } else {
            Seq::<i64>::empty()
        }) + undecodable_ids(rows.skip(1)));
        assert(undecodable_ids(t) =~= undecodable_ids(rows) + suffix);
    }
}

/// Turns raw rows into sessions, row by row, and also reports which rows
/// could not be decoded.  A row whose blob does not decode keeps its
/// identifier, name and date and gets an empty batch list — every row
/// appears in the result, in the order given — and its identifier is handed
/// back so the caller can emit a diagnostic.
pub fn sessions_from_rows_with_failures(rows: &Vec<SessionRow>) -> (r: (
    Vec<IncubationSession>,
    Vec<i64>,
))
    ensures
        r.0@.len() == rows@.len(),
        forall|i: int| 0 <= i < rows@.len() ==> #[trigger] session_matches_row(r.0@[i], rows@[i]),
        r.1@ == undecodable_ids(rows@),
{
    let mut out: Vec<IncubationSession> = Vec::new();
    let mut failed: Vec<i64> = Vec::new();
    let mut i: usize = 0;
    proof {
        assert(rows@.take(0) =~= Seq::<SessionRow>::empty());
    }
    while i < rows.len()
        invariant
            0 <= i <= rows@.len(),
            out@.len() == i,
            forall|j: int| 0 <= j < i ==> #[trigger] session_matches_row(out@[j], rows@[j]),
            failed@ == undecodable_ids(rows@.take(i as int)),
        decreases rows@.len() - i,
    {
        let row = &rows[i];
        let chars = str_to_chars(row.batches_blob.as_str());
        let batches = match decode_batches(&chars) {
            Some(bs) => bs,
            None => {
                failed.push(row.id);
                Vec::new()
            },
        };
        let s = IncubationSession {
            id: row.id,
            name: row.name.clone(),
            start_date: Date { day_number: row.start_days },
            batches,
        };
        out.push(s);
        proof {
            assert(rows@.take(i + 1) =~= rows@.take(i as int).push(rows@[i as int]));
            lemma_undecodable_ids_push(rows@.take(i as int), rows@[i as int]);
            assert(failed@ =~= undecodable_ids(rows@.take(i + 1)));
        }
        i = i + 1;
    }
    proof {
        assert(rows@.take(rows@.len() as int) =~= rows@);
    }
    (out, failed)
}

/// Turns raw rows into sessions, row by row, with the same per-row fallback
/// and without the failure report.
pub fn sessions_from_rows(rows: &Vec<SessionRow>) -> (out: Vec<IncubationSession>)
    ensures
        out@.len() == rows@.len(),
        forall|i: int| 0 <= i < rows@.len() ==> #[trigger] session_matches_row(out@[i], rows@[i]),
{
    let r = sessions_from_rows_with_failures(rows);
    r.0
}

/// Sessions in the listing order the store promises: most recent start date
/// first.
pub open spec fn sorted_by_start_desc(v: Seq<IncubationSession>) -> bool {
    forall|i: int, j: int|
        0 <= i < j < v.len() ==> v[i].start_date.day_number >= v[j].start_date.day_number
}

/// Where a session lands among already-ordered ones: after every session
/// whose start date is at least as recent, so sessions with equal start
/// dates keep their relative order.
pub open spec fn insert_by_start(t: Seq<IncubationSession>, x: IncubationSession) -> Seq<
    IncubationSession,
>
    decreases t.len(),
{
    if t.len() > 0 && t[0].start_date.day_number >= x.start_date.day_number {
        seq![t[0]] + insert_by_start(t.skip(1), x)
    } else {
        seq![x] + t
    }
}

/// The one ordering the sort produces: a stable insertion sort, most recent
/// start date first.  Being a function of the input sequence alone, it
/// makes everything downstream of the store read deterministic.
pub open spec fn sort_by_start_spec(s: Seq<IncubationSession>) -> Seq<IncubationSession>
    decreases s.len(),
{
    if s.len() == 0 {
        Seq::empty()
    } else {
        insert_by_start(sort_by_start_spec(s.drop_last()), s.last())
    }
}

proof fn lemma_insert_by_start_at(t: Seq<IncubationSession>, x: IncubationSession, p: int)
    requires
        0 <= p <= t.len(),
        forall|q: int| 0 <= q < p ==> t[q].start_date.day_number >= x.start_date.day_number,
        p == t.len() || t[p].start_date.day_number < x.start_date.day_number,
    ensures
        insert_by_start(t, x) == t.insert(p, x),
    decreases p,
{
    t.insert_ensures(p, x);
    if p == 0 {
        assert(insert_by_start(t, x) == seq![x] + t);
        assert(seq![x] + t =~= t.insert(0, x));
    } else {
        assert(t[0].start_date.day_number >= x.start_date.day_number);
        assert(forall|q: int|
            0 <= q < p - 1 ==> t.skip(1)[q].start_date.day_number
                >= x.start_date.day_number);
        lemma_insert_by_start_at(t.skip(1), x, p - 1);
        t.skip(1).insert_ensures(p - 1, x);
        assert(seq![t[0]] + t.skip(1).insert(p - 1, x) =~= t.insert(p, x));
    }
}

/// Orders sessions by start date, most recent first: exactly the stable
/// insertion sort of the input, which also keeps the same sessions as a
/// multiset.
pub fn sort_sessions_by_date(input: Vec<IncubationSession>) -> (out: Vec<IncubationSession>)
    ensures
        out@ == sort_by_start_spec(input@),
        sorted_by_start_desc(out@),
        out@.to_multiset() == input@.to_multiset(),
{
    let ghost n = input@.len() as int;
    let mut rem = input;
    let mut out: Vec<IncubationSession> = Vec::new();
    proof {
        assert(rem@ =~= input@.skip(0));
        assert(input@.take(0) =~= Seq::<IncubationSession>::empty());
        assert(out@.to_multiset().add(rem@.to_multiset()) =~= input@.to_multiset());
    }
    while rem.len() > 0
        invariant
            n == input@.len(),
            rem@.len() <= n,
            rem@ == input@.skip(n - rem@.len()),
            out@ == sort_by_start_spec(input@.take(n - rem@.len())),
            sorted_by_start_desc(out@),
            out@.to_multiset().add(rem@.to_multiset()) == input@.to_multiset(),
        decreases rem@.len(),
    {
        let key = rem[0].start_date.day_number;
        let mut p: usize = 0;
        while p < out.len() && out[p].start_date.day_number >= key
            invariant
                n == input@.len(),
                rem@.len() <= n,
                rem@ == input@.skip(n - rem@.len()),
                out@ == sort_by_start_spec(input@.take(n - rem@.len())),
                0 <= p <= out@.len(),
                sorted_by_start_desc(out@),
                out@.to_multiset().add(rem@.to_multiset()) == input@.to_multiset(),
                rem@.len() > 0,
                key == rem@[0].start_date.day_number,
                forall|q: int| 0 <= q < p ==> out@[q].start_date.day_number >= key,
            decreases out@.len() - p,
        {
            p = p + 1;
        }
        let ghost out_before = out@;
        let ghost rem_before = rem@;
        let ghost k = n - rem_before.len();
        let x = rem.remove(0);
        out.insert(p, x);
        proof {
            assert(x == rem_before[0]);
            assert(rem_before[0] == input@[k]);
            assert(rem@ == rem_before.remove(0));
            assert(rem@ =~= input@.skip(k + 1));
            assert(input@.take(k + 1).drop_last() =~= input@.take(k));
            assert(input@.take(k + 1).last() == input@[k]);
            lemma_insert_by_start_at(out_before, x, p as int);
            assert(out@ == out_before.insert(p as int, x));
            assert(out@ == sort_by_start_spec(input@.take(k + 1)));
            assert(rem_before.remove(0).to_multiset() =~= rem_before.to_multiset().remove(x));
            assert(rem_before.contains(x));
            assert(rem_before.to_multiset().count(x) > 0);
            assert(rem@.to_multiset().insert(x) =~= rem_before.to_multiset());
            out_before.insert_ensures(p as int, x);
            assert(out@.to_multiset() == out_before.to_multiset().insert(x));
            assert(out@.to_multiset().add(rem@.to_multiset()) =~= input@.to_multiset());
            assert forall|a: int, b: int| 0 <= a < b < out@.len() implies
                out@[a].start_date.day_number >= out@[b].start_date.day_number by {
                if b < p {
                } else if a > p {
                } else if a == p {
                    if p < out_before.len() {
                        assert(out@[b] == out_before[b - 1]);
                    }
                } else if b == p {
                    assert(out@[a] == out_before[a]);
                } else {
                    assert(out@[a] == out_before[a] && out@[b] == out_before[b - 1]);
                }
            }
        }
    }
    proof {
        assert(input@.take(n) =~= input@);
        assert(rem@.to_multiset() =~= Multiset::<IncubationSession>::empty());
        assert(out@.to_multiset() =~= input@.to_multiset());
    }
    out
}

/// Loads every session and reports which rows had undecodable blobs, so the
/// caller can log them as the partial-failure policy asks.  An undecodable
/// blob degrades to an empty batch list, never to a missing session.  The
/// sessions come ordered by start date, most recent first, each with a
/// start date inside the calendar range; a failure is always the read
/// error.  Everything after the row read is a function of the rows alone.
pub fn load_sessions_with_failures(conn: &rusqlite::Connection) -> (r: Result<
    (Vec<IncubationSession>, Vec<i64>),
    StoreError,
>)
    ensures
        r matches Ok(p) ==> sorted_by_start_desc(p.0@),
        r matches Ok(p) ==> forall|i: int|
            0 <= i < p.0@.len() ==> (#[trigger] p.0@[i].start_date).wf(),
        r matches Err(e) ==> e == StoreError::Read,
{
    let rows = match ex_query_rows(conn) {
        Ok(rows) => rows,
        Err(e) => {
            return Err(e);
        },
    };
    let (sessions, failed) = sessions_from_rows_with_failures(&rows);
    let ghost unsorted = sessions@;
    let sorted = sort_sessions_by_date(sessions);
    proof {
        assert forall|i: int| 0 <= i < sorted@.len() implies
            (#[trigger] sorted@[i].start_date).wf() by {
            assert(sorted@.contains(sorted@[i]));
            assert(sorted@.to_multiset().count(sorted@[i]) > 0);
            assert(unsorted.to_multiset().count(sorted@[i]) > 0);
            assert(unsorted.contains(sorted@[i]));
            let j = choose|j: int| 0 <= j < unsorted.len() && unsorted[j] == sorted@[i];
            assert(session_matches_row(unsorted[j], rows@[j]));
        }
    }
    Ok((sorted, failed))
}

/// Loads every session, without the failure report: same decoding, same
/// per-row fallback, same order.
pub fn load_sessions(conn: &rusqlite::Connection) -> (r: Result<
    Vec<IncubationSession>,
    StoreError,
>)
    ensures
        r matches Ok(v) ==> sorted_by_start_desc(v@),
        r matches Ok(v) ==> forall|i: int|
            0 <= i < v@.len() ==> (#[trigger] v@[i].start_date).wf(),
        r matches Err(e) ==> e == StoreError::Read,
{
    match load_sessions_with_failures(conn) {
        Ok(p) => Ok(p.0),
        Err(e) => Err(e),
    }
}

/// All the validation creating a session demands: a non-empty name, at
/// least one batch, and at least one egg in every batch.
pub open spec fn valid_new_session(name: Seq<char>, batches: Seq<Batch>) -> bool {
    &&& name.len() > 0
    &&& batches.len() > 0
    &&& forall|i: int| 0 <= i < batches.len() ==> (#[trigger] batches[i]).egg_count >= 1
}

/// Validates and persists a new session.  Validation failures are reported
/// before any store call, each by its own error and exactly on the inputs
/// shown; on valid input with a start date the calendar accepts, only a
/// storage failure can stop the creation, and success hands back the
/// session with its store-assigned identifier.
pub fn create_session(
    conn: &rusqlite::Connection,
    name: String,
    start_date: Date,
    batches: Vec<Batch>,
) -> (r: Result<IncubationSession, CreateSessionError>)
    ensures
        name@.len() == 0 ==> r == Err::<IncubationSession, _>(CreateSessionError::EmptyName),
        name@.len() > 0 && batches@.len() == 0 ==> r == Err::<IncubationSession, _>(
            CreateSessionError::NoBatches,
        ),
        name@.len() > 0 && batches@.len() > 0 && !(forall|i: int|
            0 <= i < batches@.len() ==> (#[trigger] batches@[i]).egg_count >= 1) ==> r == Err::<
            IncubationSession,
            _,
        >(CreateSessionError::ZeroEggCount),
        valid_new_session(name@, batches@) && !start_date.storable() ==> r == Err::<
            IncubationSession,
            _,
        >(CreateSessionError::StartDateOutOfRange),
        valid_new_session(name@, batches@) && start_date.storable() ==> (r matches Ok(s) || r
            == Err::<IncubationSession, _>(CreateSessionError::Storage(StoreError::Write))),
        r matches Ok(s) ==> {
            &&& valid_new_session(name@, batches@)
            &&& start_date.storable()
            &&& s.name@ == name@
            &&& s.start_date == start_date
            &&& s.batches@ == batches@
        },
{
    if name.as_str().unicode_len() == 0 {
        return Err(CreateSessionError::EmptyName);
    }
    if batches.len() == 0 {
        return Err(CreateSessionError::NoBatches);
    }
    let mut i: usize = 0;
    while i < batches.len()
        invariant
            0 <= i <= batches@.len(),
            name@.len() > 0,
            batches@.len() > 0,
            forall|j: int| 0 <= j < i ==> (#[trigger] batches@[j]).egg_count >= 1,
        decreases batches@.len() - i,
    {
        if batches[i].egg_count < 1 {
            return Err(CreateSessionError::ZeroEggCount);
        }
        i = i + 1;
    }
    if !start_date.is_storable() {
        return Err(CreateSessionError::StartDateOutOfRange);
    }
    let mut session = IncubationSession { id: 0, name, start_date, batches };
    match add_session_to_db(conn, &session) {
        Ok(id) => {
            session.id = id;
            Ok(session)
        },
        Err(e) => Err(CreateSessionError::Storage(e)),
    }
}

} // verus!
