use incubator_core::locale::{Language, Localization, Settings};

#[test]
fn default_language_is_italian() {
    let s = Settings::default();
    assert_eq!(s.language, Language::Italian);
}

#[test]
fn language_names() {
    assert_eq!(Language::Italian.name(), "Italiano");
    assert_eq!(Language::English.name(), "English");
}

#[test]
fn italian_translation_table() {
    let l = Localization::new(Language::Italian);
    assert_eq!(l.app_title, "Gestore Incubate Miste");
    assert_eq!(l.session_name_label, "Nome Incubata:");
    assert_eq!(l.cancel_button, "Annulla");
    assert_eq!(l.description_hint, "Descrizione (es. Marans)");
}

#[test]
fn english_translation_table() {
    let l = Localization::new(Language::English);
    assert_eq!(l.app_title, "Mixed Batch Incubator");
    assert_eq!(l.session_name_label, "Batch Name:");
    assert_eq!(l.cancel_button, "Cancel");
    assert_eq!(l.close_button, "Close");
}
