use chrono::Datelike;
use incubator_core::batch::Batch;
use incubator_core::date::Date;
use incubator_core::session::IncubationSession;
use incubator_core::species::Species;
use incubator_core::store::{
    add_session_to_db, create_session, init_db, load_sessions, load_sessions_with_failures,
    open_db_connection, remove_session_from_db, sessions_from_rows,
    sessions_from_rows_with_failures, sort_sessions_by_date, CreateSessionError, SessionRow,
};

fn day(y: i32, m: u32, d: u32) -> Date {
    let n = chrono::NaiveDate::from_ymd_opt(y, m, d).unwrap().num_days_from_ce() as i64;
    Date::from_day_number(n).unwrap()
}

fn naive(y: i32, m: u32, d: u32) -> chrono::NaiveDate {
    chrono::NaiveDate::from_ymd_opt(y, m, d).unwrap()
}

fn batch(species: Species, desc: &str, eggs: u32) -> Batch {
    Batch::new(species, desc.to_string(), eggs)
}

fn fresh_store() -> rusqlite::Connection {
    let conn = open_db_connection(":memory:").expect("in-memory store must open");
    init_db(&conn).expect("schema creation must succeed");
    conn
}

fn sessions_equal(a: &IncubationSession, b: &IncubationSession) -> bool {
    a.id == b.id
        && a.name == b.name
        && a.start_date.day_number() == b.start_date.day_number()
        && a.batches == b.batches
}

#[test]
fn create_then_list_round_trips() {
    let conn = fresh_store();
    let batches = vec![
        batch(Species::Gallina, "Marans", 6),
        batch(Species::Anatra, "detta \"veloce\"", 4),
    ];
    let created = create_session(&conn, "Prima".to_string(), day(2024, 1, 1), batches.clone())
        .expect("valid session must persist");
    assert!(created.id > 0);
    let listed = load_sessions(&conn).expect("listing must succeed");
    assert_eq!(listed.len(), 1);
    assert_eq!(listed[0].id, created.id);
    assert_eq!(listed[0].name, "Prima");
    assert_eq!(listed[0].start_date.day_number(), day(2024, 1, 1).day_number());
    assert_eq!(listed[0].batches, batches);
}

#[test]
fn listing_orders_by_start_date_descending() {
    let conn = fresh_store();
    create_session(&conn, "vecchia".to_string(), day(2023, 6, 1), vec![batch(
        Species::Oca,
        "",
        1,
    )])
    .unwrap();
    create_session(&conn, "nuova".to_string(), day(2024, 2, 1), vec![batch(
        Species::Gallina,
        "",
        2,
    )])
    .unwrap();
    create_session(&conn, "media".to_string(), day(2023, 12, 25), vec![batch(
        Species::Quaglia,
        "",
        3,
    )])
    .unwrap();
    let listed = load_sessions(&conn).unwrap();
    let names: Vec<&str> = listed.iter().map(|s| s.name.as_str()).collect();
    assert_eq!(names, vec!["nuova", "media", "vecchia"]);
    for w in listed.windows(2) {
        assert!(w[0].start_date.day_number() >= w[1].start_date.day_number());
    }
}

#[test]
fn listing_twice_gives_identical_results() {
    let conn = fresh_store();
    create_session(&conn, "a".to_string(), day(2024, 1, 1), vec![batch(
        Species::Gallina,
        "x",
        2,
    )])
    .unwrap();
    create_session(&conn, "b".to_string(), day(2024, 1, 5), vec![batch(Species::Oca, "y", 7)])
        .unwrap();
    let first = load_sessions(&conn).unwrap();
    let second = load_sessions(&conn).unwrap();
    assert_eq!(first.len(), second.len());
    for (a, b) in first.iter().zip(second.iter()) {
        assert!(sessions_equal(a, b));
    }
}

#[test]
fn deleting_missing_identifier_is_a_no_op() {
    let conn = fresh_store();
    create_session(&conn, "resta".to_string(), day(2024, 1, 1), vec![batch(
        Species::Anatra,
        "",
        5,
    )])
    .unwrap();
    let before = load_sessions(&conn).unwrap().len();
    let removed = remove_session_from_db(&conn, 424242).expect("missing id is not an error");
    assert_eq!(removed, 0);
    assert_eq!(load_sessions(&conn).unwrap().len(), before);
}

#[test]
fn deleting_existing_session_removes_it() {
    let conn = fresh_store();
    let s = create_session(&conn, "via".to_string(), day(2024, 1, 1), vec![batch(
        Species::Gallina,
        "",
        1,
    )])
    .unwrap();
    assert_eq!(load_sessions(&conn).unwrap().len(), 1);
    let removed = remove_session_from_db(&conn, s.id).unwrap();
    assert_eq!(removed, 1);
    assert!(load_sessions(&conn).unwrap().is_empty());
}

#[test]
fn empty_name_is_rejected_and_store_untouched() {
    let conn = fresh_store();
    let r = create_session(&conn, "".to_string(), day(2024, 1, 1), vec![batch(
        Species::Gallina,
        "",
        1,
    )]);
    assert_eq!(r.unwrap_err(), CreateSessionError::EmptyName);
    assert!(load_sessions(&conn).unwrap().is_empty());
}

#[test]
fn empty_batch_list_is_rejected() {
    let conn = fresh_store();
    let r = create_session(&conn, "vuota".to_string(), day(2024, 1, 1), vec![]);
    assert_eq!(r.unwrap_err(), CreateSessionError::NoBatches);
    assert!(load_sessions(&conn).unwrap().is_empty());
}

#[test]
fn zero_egg_count_is_rejected() {
    let conn = fresh_store();
    let r = create_session(&conn, "zero".to_string(), day(2024, 1, 1), vec![
        batch(Species::Gallina, "", 3),
        batch(Species::Oca, "", 0),
    ]);
    assert_eq!(r.unwrap_err(), CreateSessionError::ZeroEggCount);
    assert!(load_sessions(&conn).unwrap().is_empty());
}

#[test]
fn out_of_range_start_date_is_rejected() {
    let conn = fresh_store();
    let far = Date::from_day_number(95_500_000).unwrap();
    let r = create_session(&conn, "lontana".to_string(), far, vec![batch(
        Species::Gallina,
        "",
        1,
    )]);
    assert_eq!(r.unwrap_err(), CreateSessionError::StartDateOutOfRange);
}

#[test]
fn empty_store_lists_empty() {
    let conn = fresh_store();
    let listed = load_sessions(&conn).expect("an empty store is not an error");
    assert!(listed.is_empty());
}

#[test]
fn corrupted_blob_degrades_to_empty_batches() {
    let conn = fresh_store();
    create_session(&conn, "sana".to_string(), day(2024, 1, 2), vec![batch(
        Species::Quaglia,
        "ok",
        5,
    )])
    .unwrap();
    conn.execute(
        "INSERT INTO sessions (name, start_date, batches) VALUES (?1, ?2, ?3)",
        (&"rovinata", &naive(2024, 1, 3), &"{{not parseable"),
    )
    .unwrap();
    let listed = load_sessions(&conn).unwrap();
    assert_eq!(listed.len(), 2);
    let broken = listed.iter().find(|s| s.name == "rovinata").unwrap();
    assert!(broken.batches.is_empty());
    assert_eq!(broken.start_date.day_number(), day(2024, 1, 3).day_number());
    let healthy = listed.iter().find(|s| s.name == "sana").unwrap();
    assert_eq!(healthy.batches, vec![batch(Species::Quaglia, "ok", 5)]);
}

#[test]
fn rows_decode_with_per_row_fallback() {
    let rows = vec![
        SessionRow {
            id: 1,
            name: "buona".to_string(),
            start_days: day(2024, 1, 1).day_number(),
            batches_blob: "[{\"species\":\"Oca\",\"description\":\"\",\"egg_count\":2}]"
                .to_string(),
        },
        SessionRow {
            id: 2,
            name: "guasta".to_string(),
            start_days: day(2024, 1, 2).day_number(),
            batches_blob: "###".to_string(),
        },
    ];
    let sessions = sessions_from_rows(&rows);
    assert_eq!(sessions.len(), 2);
    assert_eq!(sessions[0].batches, vec![batch(Species::Oca, "", 2)]);
    assert_eq!(sessions[1].id, 2);
    assert_eq!(sessions[1].name, "guasta");
    assert!(sessions[1].batches.is_empty());
}

#[test]
fn add_session_assigns_fresh_identifiers() {
    let conn = fresh_store();
    let s = IncubationSession {
        id: 0,
        name: "manuale".to_string(),
        start_date: day(2024, 4, 1),
        batches: vec![batch(Species::Gallina, "", 2)],
    };
    let first = add_session_to_db(&conn, &s).unwrap();
    let second = add_session_to_db(&conn, &s).unwrap();
    assert!(second > first);
    assert_eq!(load_sessions(&conn).unwrap().len(), 2);
}

#[test]
fn unavailable_store_is_reported_at_open() {
    let r = open_db_connection("/definitely/not/a/writable/path/store.db");
    assert!(r.is_err());
}

#[test]
fn storage_failure_during_creation_is_reported() {
    // A connection whose table was never created: the insert must fail and
    // be surfaced as a storage error, not a validation error.
    let conn = open_db_connection(":memory:").unwrap();
    let r = create_session(&conn, "valida".to_string(), day(2024, 1, 1), vec![batch(
        Species::Gallina,
        "",
        1,
    )]);
    assert!(matches!(r.unwrap_err(), CreateSessionError::Storage(_)));
}

#[test]
fn read_failure_is_reported() {
    let conn = open_db_connection(":memory:").unwrap();
    assert!(load_sessions(&conn).is_err());
}

#[test]
fn failed_row_identifiers_are_reported_in_order() {
    let rows = vec![
        SessionRow {
            id: 10,
            name: "guasta prima".to_string(),
            start_days: day(2024, 1, 1).day_number(),
            batches_blob: "oops".to_string(),
        },
        SessionRow {
            id: 11,
            name: "sana".to_string(),
            start_days: day(2024, 1, 2).day_number(),
            batches_blob: "[{\"species\":\"Gallina\",\"description\":\"\",\"egg_count\":3}]"
                .to_string(),
        },
        SessionRow {
            id: 12,
            name: "guasta dopo".to_string(),
            start_days: day(2024, 1, 3).day_number(),
            batches_blob: "[{".to_string(),
        },
    ];
    let (sessions, failed) = sessions_from_rows_with_failures(&rows);
    assert_eq!(sessions.len(), 3);
    assert_eq!(failed, vec![10, 12]);
    assert!(sessions[0].batches.is_empty());
    assert_eq!(sessions[1].batches, vec![batch(Species::Gallina, "", 3)]);
    assert!(sessions[2].batches.is_empty());
}

#[test]
fn loading_reports_undecodable_rows() {
    let conn = fresh_store();
    create_session(&conn, "sana".to_string(), day(2024, 1, 2), vec![batch(
        Species::Gallina,
        "",
        2,
    )])
    .unwrap();
    conn.execute(
        "INSERT INTO sessions (name, start_date, batches) VALUES (?1, ?2, ?3)",
        (&"rotta", &naive(2024, 1, 3), &"not a batch list"),
    )
    .unwrap();
    let (sessions, failed) = load_sessions_with_failures(&conn).unwrap();
    assert_eq!(sessions.len(), 2);
    assert_eq!(failed.len(), 1);
    let broken = sessions.iter().find(|s| s.name == "rotta").unwrap();
    assert_eq!(failed[0], broken.id);
}

#[test]
fn sorting_is_stable_and_deterministic() {
    let make = || {
        vec![
            IncubationSession {
                id: 1,
                name: "pari a".to_string(),
                start_date: day(2024, 1, 10),
                batches: vec![batch(Species::Gallina, "", 1)],
            },
            IncubationSession {
                id: 2,
                name: "tarda".to_string(),
                start_date: day(2024, 2, 1),
                batches: vec![batch(Species::Oca, "", 1)],
            },
            IncubationSession {
                id: 3,
                name: "pari b".to_string(),
                start_date: day(2024, 1, 10),
                batches: vec![batch(Species::Anatra, "", 1)],
            },
        ]
    };
    let first = sort_sessions_by_date(make());
    let second = sort_sessions_by_date(make());
    let ids: Vec<i64> = first.iter().map(|s| s.id).collect();
    // Most recent first; the two sessions sharing a start date keep their
    // input order.
    assert_eq!(ids, vec![2, 1, 3]);
    for (a, b) in first.iter().zip(second.iter()) {
        assert!(sessions_equal(a, b));
    }
}
