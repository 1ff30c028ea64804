use vstd::prelude::*;

verus! {

/// User settings.
#[derive(Debug)]
pub struct Settings {
    pub selected_model: Option<String>,
    pub selected_language: String,
    pub translate_to_english: bool,
    pub model_unload_timeout_minutes: u32,
    pub output_directory: Option<String>,
    pub auto_save: bool,
}

impl Default for Settings {
    /// No model chosen, Russian, no translation, unload after ten idle minutes,
    /// the default output directory, no automatic saving.
    fn default() -> (res: Self)
        ensures
            res.selected_model is None,
            res.selected_language@ == "ru"@,
            !res.translate_to_english,
            res.model_unload_timeout_minutes == 10,
            res.output_directory is None,
            !res.auto_save,
    {
        Settings {
            selected_model: None,
            selected_language: "ru".to_owned(),
            translate_to_english: false,
            model_unload_timeout_minutes: 10,
            output_directory: None,
            auto_save: false,
        }
    }
}

} // verus!
