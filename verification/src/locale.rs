use vstd::prelude::*;
verus! {
/// The two display languages the presentation layer offers.
#[derive(Debug, Clone, Copy, PartialEq, Eq, Structural)]
pub enum Language {
    Italian,
    English,
}

impl Language {
    pub open spec fn spec_name(self) -> Seq<char> {
        match self {
            Language::Italian => "Italiano"@,
            Language::English => "English"@,
        }
    }

    /// The language's own display name.
    pub fn name(&self) -> (s: String)
        ensures
            s@ == self.spec_name(),
    {
        match self {
            Language::Italian => "Italiano".to_owned(),
            Language::English => "English".to_owned(),
        }
    }
}

/// The persisted preferences: only the display language.
pub struct Settings {
    pub language: Language,
}

impl Default for Settings {
    /// A fresh installation starts in Italian.
    fn default() -> (s: Settings)
        ensures
            s.language == Language::Italian,
    {
        Settings { language: Language::Italian }
    }
}

/// Every string the presentation layer shows, in one language.
pub struct Localization {
    pub app_title: String,
    pub create_session_window_title: String,
    pub info_window_title: String,
    pub session_name_label: String,
    pub add_egg_batches_label: String,
    pub no_active_sessions_label: String,
    pub started_on_label: String,
    pub hatch_on_label: String,
    pub status_label: String,
    pub day_label: String,
    pub batches_in_session_label: String,
    pub new_session_button: String,
    pub add_another_batch_button: String,
    pub create_and_start_button: String,
    pub cancel_button: String,
    pub delete_button: String,
    pub info_button: String,
    pub preferences_button: String,
    pub close_button: String,
    pub description_hint: String,
    pub version_label: String,
    pub license_label: String,
    pub source_code_link: String,
    pub author_label: String,
}

impl Localization {
    /// The full translation table for `lang`: every field is pinned to its
    /// exact text.
    pub open spec fn is_translation_for(self, lang: Language) -> bool {
        match lang {
            Language::Italian => {
                &&& self.app_title@ == "Gestore Incubate Miste"@
                &&& self.create_session_window_title@ == "Crea Nuova Incubata Mista"@
                &&& self.info_window_title@ == "Informazioni"@
                &&& self.session_name_label@ == "Nome Incubata:"@
                &&& self.add_egg_batches_label@ == "Aggiungi Lotti di Uova:"@
                &&& self.no_active_sessions_label@ == "Nessuna incubata attiva. Clicca su 'Nuova Incubata' per iniziare."@
                &&& self.started_on_label@ == "Iniziata il"@
                &&& self.hatch_on_label@ == "Schiusa prevista"@
                &&& self.status_label@ == "Stato"@
                &&& self.day_label@ == "Giorno"@
                &&& self.batches_in_session_label@ == "Lotti in questa incubata:"@
                &&& self.new_session_button@ == "🐣 Nuova Incubata"@
                &&& self.add_another_batch_button@ == "+ Aggiungi un altro lotto"@
                &&& self.create_and_start_button@ == "Crea e Avvia Incubata"@
                &&& self.cancel_button@ == "Annulla"@
                &&& self.delete_button@ == "🗑 Elimina"@
                &&& self.info_button@ == "Info"@
                &&& self.preferences_button@ == "Preferenze"@
                &&& self.close_button@ == "Chiudi"@
                &&& self.description_hint@ == "Descrizione (es. Marans)"@
                &&& self.version_label@ == "Versione"@
                &&& self.license_label@ == "Licenza"@
                &&& self.source_code_link@ == "Visita il codice sorgente su GitHub"@
                &&& self.author_label@ == "Autore"@
            },
            Language::English => {
                &&& self.app_title@ == "Mixed Batch Incubator"@
                &&& self.create_session_window_title@ == "Create New Mixed Batch"@
                &&& self.info_window_title@ == "About"@
                &&& self.session_name_label@ == "Batch Name:"@
                &&& self.add_egg_batches_label@ == "Add Egg Batches:"@
                &&& self.no_active_sessions_label@ == "No active sessions. Click 'New Batch' to start."@
                &&& self.started_on_label@ == "Started on"@
                &&& self.hatch_on_label@ == "Expected hatch"@
                &&& self.status_label@ == "Status"@
                &&& self.day_label@ == "Day"@
                &&& self.batches_in_session_label@ == "Batches in this session:"@
                &&& self.new_session_button@ == "🐣 New Batch"@
                &&& self.add_another_batch_button@ == "+ Add another batch"@
                &&& self.create_and_start_button@ == "Create and Start Batch"@
                &&& self.cancel_button@ == "Cancel"@
                &&& self.delete_button@ == "🗑 Delete"@
                &&& self.info_button@ == "About"@
                &&& self.preferences_button@ == "Preferences"@
                &&& self.close_button@ == "Close"@
                &&& self.description_hint@ == "Description (e.g., Marans)"@
                &&& self.version_label@ == "Version"@
                &&& self.license_label@ == "License"@
                &&& self.source_code_link@ == "Visit source code on GitHub"@
                &&& self.author_label@ == "Author"@
            },
        }
    }

    /// The string table for `lang`.
    pub fn new(lang: Language) -> (r: Localization)
        ensures
            r.is_translation_for(lang),
    {
        match lang {
            Language::Italian => Localization {
                app_title: "Gestore Incubate Miste".to_owned(),
                create_session_window_title: "Crea Nuova Incubata Mista".to_owned(),
                info_window_title: "Informazioni".to_owned(),
                session_name_label: "Nome Incubata:".to_owned(),
                add_egg_batches_label: "Aggiungi Lotti di Uova:".to_owned(),
                no_active_sessions_label: "Nessuna incubata attiva. Clicca su 'Nuova Incubata' per iniziare.".to_owned(),
                started_on_label: "Iniziata il".to_owned(),
                hatch_on_label: "Schiusa prevista".to_owned(),
                status_label: "Stato".to_owned(),
                day_label: "Giorno".to_owned(),
                batches_in_session_label: "Lotti in questa incubata:".to_owned(),
                new_session_button: "🐣 Nuova Incubata".to_owned(),
                add_another_batch_button: "+ Aggiungi un altro lotto".to_owned(),
                create_and_start_button: "Crea e Avvia Incubata".to_owned(),
                cancel_button: "Annulla".to_owned(),
                delete_button: "🗑 Elimina".to_owned(),
                info_button: "Info".to_owned(),
                preferences_button: "Preferenze".to_owned(),
                close_button: "Chiudi".to_owned(),
                description_hint: "Descrizione (es. Marans)".to_owned(),
                version_label: "Versione".to_owned(),
                license_label: "Licenza".to_owned(),
                source_code_link: "Visita il codice sorgente su GitHub".to_owned(),
                author_label: "Autore".to_owned(),
            },
            Language::English => Localization {
                app_title: "Mixed Batch Incubator".to_owned(),
                create_session_window_title: "Create New Mixed Batch".to_owned(),
                info_window_title: "About".to_owned(),
                session_name_label: "Batch Name:".to_owned(),
                add_egg_batches_label: "Add Egg Batches:".to_owned(),
                no_active_sessions_label: "No active sessions. Click 'New Batch' to start.".to_owned(),
                started_on_label: "Started on".to_owned(),
                hatch_on_label: "Expected hatch".to_owned(),
                status_label: "Status".to_owned(),
                day_label: "Day".to_owned(),
                batches_in_session_label: "Batches in this session:".to_owned(),
                new_session_button: "🐣 New Batch".to_owned(),
                add_another_batch_button: "+ Add another batch".to_owned(),
                create_and_start_button: "Create and Start Batch".to_owned(),
                cancel_button: "Cancel".to_owned(),
                delete_button: "🗑 Delete".to_owned(),
                info_button: "About".to_owned(),
                preferences_button: "Preferences".to_owned(),
                close_button: "Close".to_owned(),
                description_hint: "Description (e.g., Marans)".to_owned(),
                version_label: "Version".to_owned(),
                license_label: "License".to_owned(),
                source_code_link: "Visit source code on GitHub".to_owned(),
                author_label: "Author".to_owned(),
            },
        }
    }
}

} // verus!
