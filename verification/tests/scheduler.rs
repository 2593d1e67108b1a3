use chrono::Datelike;
use incubator_core::batch::Batch;
use incubator_core::date::Date;
use incubator_core::session::{BatchStatus, IncubationSession};
use incubator_core::species::Species;

fn day(y: i32, m: u32, d: u32) -> Date {
    let n = chrono::NaiveDate::from_ymd_opt(y, m, d).unwrap().num_days_from_ce() as i64;
    Date::from_day_number(n).unwrap()
}

fn batch(species: Species, desc: &str, eggs: u32) -> Batch {
    Batch::new(species, desc.to_string(), eggs)
}

fn two_species_session() -> IncubationSession {
    IncubationSession {
        id: 1,
        name: "Mista".to_string(),
        start_date: day(2024, 1, 1),
        batches: vec![batch(Species::Gallina, "a", 6), batch(Species::Anatra, "b", 4)],
    }
}

#[test]
fn species_incubation_lengths() {
    assert_eq!(Species::Gallina.incubation_days(), 21);
    assert_eq!(Species::Anatra.incubation_days(), 28);
    assert_eq!(Species::Quaglia.incubation_days(), 18);
    assert_eq!(Species::Oca.incubation_days(), 30);
}

#[test]
fn species_names() {
    assert_eq!(Species::Gallina.name(), "Gallina");
    assert_eq!(Species::Oca.name(), "Oca");
}

#[test]
fn max_incubation_days_two_species() {
    let s = two_species_session();
    assert_eq!(s.max_incubation_days(), 28);
}

#[test]
fn max_incubation_days_empty_session_is_zero() {
    let s = IncubationSession {
        id: 9,
        name: "Vuota".to_string(),
        start_date: day(2024, 1, 1),
        batches: vec![],
    };
    assert_eq!(s.max_incubation_days(), 0);
    assert_eq!(s.final_hatch_date().day_number(), day(2024, 1, 1).day_number());
}

#[test]
fn max_incubation_days_all_species() {
    let s = IncubationSession {
        id: 2,
        name: "Tutte".to_string(),
        start_date: day(2024, 3, 5),
        batches: vec![
            batch(Species::Quaglia, "", 1),
            batch(Species::Gallina, "", 1),
            batch(Species::Oca, "", 1),
            batch(Species::Anatra, "", 1),
        ],
    };
    assert_eq!(s.max_incubation_days(), 30);
}

#[test]
fn final_hatch_date_and_insertion_days() {
    let s = two_species_session();
    assert_eq!(s.max_incubation_days(), 28);
    assert_eq!(s.final_hatch_date().day_number(), day(2024, 1, 29).day_number());
    assert_eq!(s.insertion_day(0), 8);
    assert_eq!(s.insertion_day(1), 1);
}

#[test]
fn status_on_action_day() {
    let s = two_species_session();
    let today = day(2024, 1, 8);
    assert_eq!(s.current_session_day(today), 8);
    assert_eq!(s.batch_status(0, today), BatchStatus::ActionDueToday);
    assert_eq!(s.batch_status(1, today), BatchStatus::AlreadyInserted);
    assert!(s.is_action_day(today));
}

#[test]
fn status_before_action_day() {
    let s = two_species_session();
    let today = day(2024, 1, 3);
    assert_eq!(s.current_session_day(today), 3);
    assert_eq!(s.batch_status(0, today), BatchStatus::Pending);
    assert_eq!(s.insertion_day(0), 8);
    assert_eq!(s.batch_status(1, today), BatchStatus::AlreadyInserted);
    assert!(!s.is_action_day(today));
}

#[test]
fn day_one_is_start_date() {
    let s = two_species_session();
    assert_eq!(s.current_session_day(day(2024, 1, 1)), 1);
    assert_eq!(s.batch_status(1, day(2024, 1, 1)), BatchStatus::ActionDueToday);
}

#[test]
fn date_range_checks() {
    assert!(Date::from_day_number(0).is_some());
    assert!(Date::from_day_number(96_000_000).is_some());
    assert!(Date::from_day_number(96_000_001).is_none());
    assert!(Date::from_day_number(-96_000_001).is_none());
    assert!(day(2024, 1, 1).is_storable());
}
