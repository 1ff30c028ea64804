use handyfiles::text::PathStyle;
use handyfiles::commands::{
    clear_completed, decode_route, ffmpeg_fallback_check, get_decoder_status, get_language,
    get_models, get_queue, get_selected_model, prepare_transcription, queue_files,
    reset_file_for_retranscribe, select_model, set_language, update_file_status, DecodeRoute, FileCheck,
};
use handyfiles::managers::ffmpeg::FfmpegManager;
use handyfiles::managers::model::{EngineType, ModelManager};
use handyfiles::managers::transcription::TranscriptionManager;
use handyfiles::managers::{AppState, FileStatus, Preferences};

fn state_with(files: &[&str], ffmpeg: Option<&str>, prefs: Preferences) -> AppState {
    let mut models = ModelManager::new("/m".to_string(), PathStyle::Unix);
    models.record_present_files(files.iter().map(|s| s.to_string()).collect());
    AppState::new(
        PathStyle::Unix,
        FfmpegManager::new(ffmpeg.map(|s| s.to_string())),
        models,
        TranscriptionManager::new(),
        prefs,
    )
}

fn file() -> FileCheck {
    FileCheck { is_file: true, readable: true, audio_track: Some(true) }
}

fn files(n: usize) -> Vec<FileCheck> {
    vec![file(); n]
}

fn no_prefs() -> Preferences {
    Preferences { selected_model: None, language: None }
}

fn is_uuid(s: &str) -> bool {
    s.len() == 36
        && s.chars().enumerate().all(|(i, c)| {
            if [8, 13, 18, 23].contains(&i) {
                c == '-'
            } else {
                c.is_ascii_hexdigit() && !c.is_ascii_uppercase()
            }
        })
        && s.as_bytes()[14] == b'4'
        && b"89ab".contains(&s.as_bytes()[19])
}

#[test]
fn restore_preferences() {
    let s = state_with(&["ggml-base.bin"], None, Preferences {
        selected_model: Some("whisper-base".to_string()),
        language: Some("en".to_string()),
    });
    assert_eq!(get_selected_model(&s), Some("whisper-base".to_string()));
    assert_eq!(get_language(&s), "en");

    let s = state_with(&[], None, Preferences {
        selected_model: Some("whisper-base".to_string()),
        language: None,
    });
    assert_eq!(get_selected_model(&s), None);
    assert_eq!(get_language(&s), "ru");
}

#[test]
fn preferences_round_trip() {
    let mut s = state_with(&["ggml-tiny.bin"], None, no_prefs());
    select_model("whisper-tiny".to_string(), &mut s).unwrap();
    set_language("de".to_string(), &mut s);
    let saved = s.save_preferences();
    let restored = state_with(&["ggml-tiny.bin"], None, saved);
    assert_eq!(get_selected_model(&restored), Some("whisper-tiny".to_string()));
    assert_eq!(get_language(&restored), "de");
}

#[test]
fn select_needs_download() {
    let mut s = state_with(&["ggml-tiny.bin"], None, no_prefs());
    assert_eq!(select_model("whisper-base".to_string(), &mut s).unwrap_err(), "Модель не скачана");
    assert_eq!(get_selected_model(&s), None);
    assert!(select_model("whisper-tiny".to_string(), &mut s).is_ok());
    assert_eq!(get_selected_model(&s), Some("whisper-tiny".to_string()));
    assert!(get_models(&s)[0].is_downloaded);
}

#[test]
fn decoder_status() {
    let s = state_with(&[], Some("/usr/bin/ffmpeg"), no_prefs());
    let st = get_decoder_status(&s);
    assert!(st.ffmpeg_available);
    assert_eq!(st.ffmpeg_path, Some("/usr/bin/ffmpeg".to_string()));
    assert_eq!(st.native_formats.len(), 9);
    assert_eq!(st.ffmpeg_formats, vec!["avi", "mov", "wma"]);
    let s = state_with(&[], None, no_prefs());
    assert!(!get_decoder_status(&s).ffmpeg_available);
}

#[test]
fn queue_filters_and_describes() {
    let mut s = state_with(&[], None, no_prefs());
    let paths = vec![
        "/v/Clip.MOV".to_string(),
        "/a/notes.txt".to_string(),
        "/a/song.mp3".to_string(),
        "/a/gone.wav".to_string(),
        "/a/noext".to_string(),
    ];
    let added = queue_files(paths, vec![file(), file(), file(), FileCheck { is_file: false, ..file() }, file()], &mut s).unwrap();
    assert_eq!(added.len(), 2);
    assert_eq!(added[0].path, "/v/Clip.MOV");
    assert_eq!(added[0].filename, "Clip.MOV");
    assert!(added[0].is_video);
    assert_eq!(added[1].filename, "song.mp3");
    assert!(!added[1].is_video);
    for f in &added {
        assert_eq!(f.status, FileStatus::Queued);
        assert!(f.result.is_none() && f.duration_ms.is_none() && f.error.is_none());
        assert!(is_uuid(&f.id));
    }
    assert_ne!(added[0].id, added[1].id);
    assert_eq!(get_queue(&s).len(), 2);
    let more = queue_files(vec!["/x/b.flac".to_string()], files(1), &mut s).unwrap();
    let q = get_queue(&s);
    assert_eq!(q.len(), 3);
    assert_eq!(q[0].id, added[0].id);
    assert_eq!(q[2].id, more[0].id);
}

#[test]
fn queue_checks_reading_and_audio() {
    let mut s = state_with(&[], None, no_prefs());
    let paths = vec![
        "/a/locked.mp3".to_string(),
        "/a/silent.mp4".to_string(),
        "/a/old.avi".to_string(),
        "/a/fine.wav".to_string(),
    ];
    let checks = vec![
        FileCheck { readable: false, ..file() },
        FileCheck { audio_track: Some(false), ..file() },
        FileCheck { audio_track: None, ..file() },
        file(),
    ];
    let added = queue_files(paths, checks, &mut s).unwrap();
    let names: Vec<&str> = added.iter().map(|f| f.filename.as_str()).collect();
    assert_eq!(names, vec!["old.avi", "fine.wav"]);
}

#[test]
fn status_updates_and_reset() {
    let mut s = state_with(&[], None, no_prefs());
    let added = queue_files(vec!["/a/x.wav".to_string(), "/a/y.wav".to_string()], files(2), &mut s).unwrap();
    let id = added[0].id.clone();
    update_file_status(&mut s, &id, FileStatus::Converting, None, None, None);
    assert_eq!(get_queue(&s)[0].status, FileStatus::Converting);
    update_file_status(&mut s, &id, FileStatus::Completed, Some("текст".to_string()), Some(1500), None);
    update_file_status(&mut s, &id, FileStatus::Completed, None, None, None);
    let q = get_queue(&s);
    assert_eq!(q[0].result, Some("текст".to_string()));
    assert_eq!(q[0].duration_ms, Some(1500));
    assert_eq!(q[1].status, FileStatus::Queued);
    update_file_status(&mut s, "missing", FileStatus::Error, None, None, Some("e".to_string()));
    assert_eq!(get_queue(&s).len(), 2);

    reset_file_for_retranscribe(id.clone(), &mut s).unwrap();
    let q = get_queue(&s);
    assert_eq!(q[0].status, FileStatus::Queued);
    assert!(q[0].result.is_none() && q[0].duration_ms.is_none());
    assert_eq!(q[0].path, "/a/x.wav");
    assert_eq!(reset_file_for_retranscribe("nope".to_string(), &mut s).unwrap_err(), "Файл не найден");
}

#[test]
fn clearing_finished_files() {
    let mut s = state_with(&[], None, no_prefs());
    let added = queue_files(
        vec!["/a.wav".to_string(), "/b.wav".to_string(), "/c.wav".to_string(), "/d.wav".to_string()],
        files(4),
        &mut s,
    )
    .unwrap();
    update_file_status(&mut s, &added[0].id, FileStatus::Completed, None, None, None);
    update_file_status(&mut s, &added[1].id, FileStatus::Transcribing, None, None, None);
    update_file_status(&mut s, &added[2].id, FileStatus::Error, None, None, Some("x".to_string()));
    clear_completed(&mut s);
    let q = get_queue(&s);
    assert_eq!(q.len(), 2);
    assert_eq!(q[0].id, added[1].id);
    assert_eq!(q[1].id, added[3].id);
    clear_completed(&mut s);
    assert_eq!(get_queue(&s).len(), 2);
}

#[test]
fn preparing_a_transcription() {
    let mut s = state_with(&["ggml-small.bin"], None, no_prefs());
    assert_eq!(prepare_transcription(&s, "x").unwrap_err(), "Файл не найден в очереди");
    let added = queue_files(vec!["/a/talk.ogg".to_string()], files(1), &mut s).unwrap();
    let id = added[0].id.clone();
    assert_eq!(prepare_transcription(&s, &id).unwrap_err(), "Модель не выбрана");
    select_model("whisper-small".to_string(), &mut s).unwrap();
    set_language("en".to_string(), &mut s);
    let job = prepare_transcription(&s, &id).unwrap();
    assert_eq!(job.path, "/a/talk.ogg");
    assert_eq!(job.filename, "talk.ogg");
    assert_eq!(job.model_id, "whisper-small");
    assert_eq!(job.model_path, "/m/ggml-small.bin");
    assert_eq!(job.engine, EngineType::Whisper);
    assert_eq!(job.language, "en");
    s.models.record_present_files(vec![]);
    assert_eq!(prepare_transcription(&s, &id).unwrap_err(), "Модель не скачана");
}

#[test]
fn decoder_routing() {
    assert_eq!(decode_route(PathStyle::Unix, "/a/b.MP3"), DecodeRoute::Native);
    assert_eq!(decode_route(PathStyle::Unix, "/a/b.mkv"), DecodeRoute::Native);
    assert_eq!(decode_route(PathStyle::Unix, "/a/b.avi"), DecodeRoute::Ffmpeg);
    assert_eq!(decode_route(PathStyle::Unix, "/a/b"), DecodeRoute::Ffmpeg);
    let none = FfmpegManager::new(None);
    assert_eq!(
        ffmpeg_fallback_check(&none, PathStyle::Unix, "/a/b.WMA").unwrap_err(),
        "Формат WMA не поддерживается нативно, а FFmpeg не найден. Установите: brew install ffmpeg"
    );
    assert_eq!(
        ffmpeg_fallback_check(&none, PathStyle::Unix, "/a/b").unwrap_err(),
        "Формат ? не поддерживается нативно, а FFmpeg не найден. Установите: brew install ffmpeg"
    );
    assert!(ffmpeg_fallback_check(&FfmpegManager::new(Some("/f".to_string())), PathStyle::Unix, "/a/b.wma").is_ok());
}

#[test]
fn windows_paths_in_the_queue() {
    let mut models = ModelManager::new("C:\\data\\models".to_string(), PathStyle::Windows);
    models.record_present_files(vec!["ggml-tiny.bin".to_string()]);
    assert_eq!(models.get_model_path_by_id("whisper-tiny"), Some("C:\\data\\models\\ggml-tiny.bin".to_string()));
    let mut s = AppState::new(PathStyle::Windows, FfmpegManager::new(None), models, TranscriptionManager::new(), no_prefs());
    let added = queue_files(
        vec!["C:\\Users\\me\\Talk.MP3".to_string(), "D:\\clips\\notes.txt".to_string()],
        files(2),
        &mut s,
    )
    .unwrap();
    assert_eq!(added.len(), 1);
    assert_eq!(added[0].filename, "Talk.MP3");
    assert!(!added[0].is_video);
    assert_eq!(decode_route(PathStyle::Windows, "C:\\v\\a.AVI"), DecodeRoute::Ffmpeg);
    assert_eq!(decode_route(PathStyle::Windows, "C:\\v\\a.flac"), DecodeRoute::Native);
}
