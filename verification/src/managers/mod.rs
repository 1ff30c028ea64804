pub mod audio;
pub mod download;
pub mod ffmpeg;
pub mod model;
pub mod transcription;

use vstd::prelude::*;

use crate::text::{clone_opt, opt_view, PathStyle};
use ffmpeg::FfmpegManager;
use model::{model_path_spec, registry_find, ModelManager, ModelManagerView};
use transcription::TranscriptionManager;

verus! {

/// Where a queued file stands.
#[derive(Clone, Copy, Debug, PartialEq, Eq, Structural)]
pub enum FileStatus {
    Queued,
    Converting,
    Transcribing,
    Completed,
    Error,
}

/// A file in the transcription queue.
#[derive(Debug)]
pub struct QueuedFile {
    pub id: String,
    pub path: String,
    pub filename: String,
    pub is_video: bool,
    pub status: FileStatus,
    pub result: Option<String>,
    pub duration_ms: Option<u64>,
    pub error: Option<String>,
}

impl QueuedFile {
    /// A copy of this entry.
    pub fn duplicate(&self) -> (res: QueuedFile)
        ensures
            res == *self,
    {
        QueuedFile {
            id: self.id.clone(),
            path: self.path.clone(),
            filename: self.filename.clone(),
            is_video: self.is_video,
            status: self.status,
            result: clone_opt(&self.result),
            duration_ms: self.duration_ms,
            error: clone_opt(&self.error),
        }
    }
}

/// The preferences kept between runs.
#[derive(Debug)]
pub struct Preferences {
    pub selected_model: Option<String>,
    pub language: Option<String>,
}

/// Whether the model `id` is on offer and its file is in the models directory.
pub open spec fn is_downloaded_id(m: ModelManagerView, id: Seq<char>) -> bool {
    match registry_find(id) {
        Some(d) => model_path_spec(m, d) is Some,
        None => false,
    }
}

/// The model selection that a saved selection gives back: kept only while
/// that model is still downloaded.
pub open spec fn restore_selection(m: ModelManagerView, saved: Option<Seq<char>>) -> Option<Seq<char>> {
    match saved {
        Some(id) => if is_downloaded_id(m, id) {
            Some(id)
        } else {
            None
        },
        None => None,
    }
}

/// The language that a saved language gives back: Russian when none was saved.
pub open spec fn restore_language(saved: Option<Seq<char>>) -> Seq<char> {
    match saved {
        Some(l) => l,
        None => "ru"@,
    }
}

/// The state that the commands act on.
pub struct AppState {
    pub path_style: PathStyle,
    pub ffmpeg: FfmpegManager,
    pub models: ModelManager,
    pub transcription: TranscriptionManager,
    pub queued_files: Vec<QueuedFile>,
    pub selected_model: Option<String>,
    pub selected_language: String,
}

impl AppState {
    /// A state with an empty queue, reading paths in `path_style`, that takes
    /// up the saved preferences: the saved model if it is still downloaded,
    /// the saved language or Russian.
    pub fn new(
        path_style: PathStyle,
        ffmpeg: FfmpegManager,
        models: ModelManager,
        transcription: TranscriptionManager,
        prefs: Preferences,
    ) -> (res: AppState)
        ensures
            res.path_style == path_style,
            res.ffmpeg == ffmpeg,
            res.models == models,
            res.transcription == transcription,
            res.queued_files@.len() == 0,
            opt_view(res.selected_model) == restore_selection(models@, opt_view(prefs.selected_model)),
            res.selected_language@ == restore_language(opt_view(prefs.language)),
    {
        let selected_model = match prefs.selected_model {
            Some(id) => if models.get_model_path_by_id(id.as_str()).is_some() {
                Some(id)
            } else {
                None
            },
            None => None,
        };
        let selected_language = match prefs.language {
            Some(l) => l,
            None => "ru".to_owned(),
        };
        AppState { path_style, ffmpeg, models, transcription, queued_files: Vec::new(), selected_model, selected_language }
    }

    /// The preferences to keep: the selected model and the language.
    pub fn save_preferences(&self) -> (res: Preferences)
        ensures
            res.selected_model == self.selected_model,
            opt_view(res.language) == Some(self.selected_language@),
    {
        Preferences { selected_model: clone_opt(&self.selected_model), language: Some(self.selected_language.clone()) }
    }
}

/// Saved preferences give back the selection and the language they were saved
/// from, as long as the selected model is still downloaded.
pub proof fn lemma_preferences_round_trip(m: ModelManagerView, selected: Option<Seq<char>>, language: Seq<char>)
    requires
        selected matches Some(id) ==> is_downloaded_id(m, id),
    ensures
        restore_selection(m, selected) == selected,
        restore_language(Some(language)) == language,
{
}

} // verus!
