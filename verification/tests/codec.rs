use incubator_core::batch::Batch;
use incubator_core::codec::{decode_batches_text, encode_batches_text};
use incubator_core::species::Species;

fn batch(species: Species, desc: &str, eggs: u32) -> Batch {
    Batch::new(species, desc.to_string(), eggs)
}

fn round_trip(batches: Vec<Batch>) {
    let text = encode_batches_text(&batches);
    let back = decode_batches_text(text.as_str()).expect("encoded text must decode");
    assert_eq!(back, batches);
}

#[test]
fn exact_encoding_of_one_batch() {
    let text = encode_batches_text(&vec![batch(Species::Gallina, "Marans", 12)]);
    assert_eq!(
        text,
        "[{\"species\":\"Gallina\",\"description\":\"Marans\",\"egg_count\":12}]"
    );
}

#[test]
fn encoding_is_valid_json_for_a_reference_parser() {
    let text = encode_batches_text(&vec![
        batch(Species::Anatra, "detta \"corritrice\" \\ veloce", 7),
        batch(Species::Oca, "", 1),
    ]);
    let parsed: serde_json::Value = serde_json::from_str(&text).expect("must be valid JSON");
    let arr = parsed.as_array().unwrap();
    assert_eq!(arr.len(), 2);
    assert_eq!(arr[0]["species"], "Anatra");
    assert_eq!(arr[0]["description"], "detta \"corritrice\" \\ veloce");
    assert_eq!(arr[0]["egg_count"], 7);
    assert_eq!(arr[1]["species"], "Oca");
    assert_eq!(arr[1]["description"], "");
    assert_eq!(arr[1]["egg_count"], 1);
}

#[test]
fn round_trip_single_batch() {
    round_trip(vec![batch(Species::Gallina, "Marans", 12)]);
}

#[test]
fn round_trip_all_species() {
    round_trip(vec![
        batch(Species::Gallina, "", 1),
        batch(Species::Anatra, "corritrice", 4),
        batch(Species::Quaglia, "giapponese", 30),
        batch(Species::Oca, "tolosa", 2),
    ]);
}

#[test]
fn round_trip_empty_list() {
    let text = encode_batches_text(&vec![]);
    assert_eq!(text, "[]");
    let back = decode_batches_text("[]").unwrap();
    assert!(back.is_empty());
}

#[test]
fn round_trip_description_with_quotes_and_backslashes() {
    round_trip(vec![
        batch(Species::Quaglia, "detta \"la regina\"", 3),
        batch(Species::Oca, "C:\\uova\\oca", 1),
        batch(Species::Gallina, "\\\"\\", 9),
    ]);
}

#[test]
fn round_trip_extreme_egg_counts() {
    round_trip(vec![
        batch(Species::Gallina, "molte", u32::MAX),
        batch(Species::Anatra, "zero", 0),
        batch(Species::Oca, "una", 1),
    ]);
}

#[test]
fn decode_without_egg_count_defaults_to_one() {
    let decoded =
        decode_batches_text("[{\"species\":\"Oca\",\"description\":\"vecchio formato\"}]")
            .unwrap();
    assert_eq!(decoded.len(), 1);
    assert_eq!(decoded[0], batch(Species::Oca, "vecchio formato", 1));
}

#[test]
fn decode_rejects_garbage() {
    assert!(decode_batches_text("").is_none());
    assert!(decode_batches_text("not json at all").is_none());
    assert!(decode_batches_text("[").is_none());
    assert!(decode_batches_text("[]x").is_none());
    assert!(decode_batches_text("[{\"species\":\"Dodo\",\"description\":\"\",\"egg_count\":1}]")
        .is_none());
    assert!(decode_batches_text(
        "[{\"species\":\"Gallina\",\"description\":\"x\",\"egg_count\":99999999999}]"
    )
    .is_none());
    assert!(decode_batches_text(
        "[{\"species\":\"Gallina\",\"description\":\"x\",\"egg_count\":1}"
    )
    .is_none());
}

#[test]
fn decode_is_exact_about_digits() {
    let decoded = decode_batches_text(
        "[{\"species\":\"Quaglia\",\"description\":\"\",\"egg_count\":4294967295}]",
    )
    .unwrap();
    assert_eq!(decoded[0].egg_count, u32::MAX);
    assert!(decode_batches_text(
        "[{\"species\":\"Quaglia\",\"description\":\"\",\"egg_count\":4294967296}]"
    )
    .is_none());
}
