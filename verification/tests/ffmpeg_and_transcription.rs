use handyfiles::managers::ffmpeg::{common_paths, extraction_outcome, lookup_answer, select_ffmpeg, FfmpegManager, Platform};
use handyfiles::managers::transcription::{make_result, TranscriptionManager};
use handyfiles::settings::Settings;

#[test]
fn ffmpeg_lookup_order() {
    let c = common_paths(Platform::Linux);
    assert_eq!(c, vec!["/usr/bin/ffmpeg", "/usr/local/bin/ffmpeg", "/snap/bin/ffmpeg"]);
    assert_eq!(common_paths(Platform::MacOs), vec!["/opt/homebrew/bin/ffmpeg", "/usr/local/bin/ffmpeg", "/usr/bin/ffmpeg"]);
    assert!(common_paths(Platform::Windows).is_empty());
    let lx = Platform::Linux;
    assert_eq!(select_ffmpeg(lx, &vec![false, true, true], None), Some("/usr/local/bin/ffmpeg".to_string()));
    assert_eq!(
        select_ffmpeg(lx, &vec![false, false, false], Some("  /opt/ff/ffmpeg\n".to_string())),
        Some("/opt/ff/ffmpeg".to_string())
    );
    assert_eq!(select_ffmpeg(lx, &vec![false, false, false], Some(" \n".to_string())), None);
    assert_eq!(select_ffmpeg(lx, &vec![false, false, false], None), None);
    assert_eq!(select_ffmpeg(Platform::Other, &vec![], Some("/x".to_string())), Some("/x".to_string()));
}

#[test]
fn windows_lookup_takes_first_line() {
    let out = "C:\\ffmpeg\\bin\\ffmpeg.exe\r\nD:\\tools\\ffmpeg.exe\r\n".to_string();
    assert_eq!(select_ffmpeg(Platform::Windows, &vec![], Some(out.clone())), Some("C:\\ffmpeg\\bin\\ffmpeg.exe".to_string()));
    // Elsewhere the whole answer counts.
    assert_eq!(
        select_ffmpeg(Platform::Other, &vec![], Some(out)),
        Some("C:\\ffmpeg\\bin\\ffmpeg.exe\r\nD:\\tools\\ffmpeg.exe".to_string())
    );
    assert_eq!(select_ffmpeg(Platform::Windows, &vec![], Some("\nD:\\f.exe".to_string())), None);
}

#[test]
fn ffmpeg_manager_basics() {
    let m = FfmpegManager::new(Some("/usr/bin/ffmpeg".to_string()));
    assert!(m.is_available());
    assert_eq!(m.binary_path(), Some("/usr/bin/ffmpeg".to_string()));
    assert_eq!(m.program(), Ok("/usr/bin/ffmpeg".to_string()));
    let n = FfmpegManager::new(None);
    assert!(!n.is_available());
    assert_eq!(n.binary_path(), None);
    assert_eq!(n.program().unwrap_err(), "FFmpeg не найден. Установите: brew install ffmpeg");
}

#[test]
fn ffmpeg_arguments_and_names() {
    let args = FfmpegManager::extract_args("/in.avi", "/tmp/out.wav");
    assert_eq!(
        args,
        vec!["-y", "-i", "/in.avi", "-vn", "-ar", "16000", "-ac", "1", "-c:a", "pcm_s16le", "-f", "wav", "/tmp/out.wav"]
    );
    let name = FfmpegManager::temp_wav_name();
    assert!(name.starts_with("handyfiles_") && name.ends_with(".wav"));
    assert_eq!(name.len(), "handyfiles_".len() + 36 + ".wav".len());
    assert_ne!(name, FfmpegManager::temp_wav_name());
    let id = &name["handyfiles_".len().."handyfiles_".len() + 36];
    assert_eq!(&id[14..15], "4");
    assert!(["8", "9", "a", "b"].contains(&&id[19..20]));
}

#[test]
fn ffmpeg_outcomes() {
    assert_eq!(extraction_outcome(true, Some(0), true, "/o.wav".to_string()), Ok("/o.wav".to_string()));
    assert_eq!(extraction_outcome(false, Some(1), true, "/o.wav".to_string()).unwrap_err(), "FFmpeg завершился с кодом 1");
    assert_eq!(extraction_outcome(false, None, false, "/o.wav".to_string()).unwrap_err(), "FFmpeg завершился с кодом -1");
    assert_eq!(extraction_outcome(true, Some(0), false, "/o.wav".to_string()).unwrap_err(), "FFmpeg не создал выходной файл");
}

#[test]
fn engine_bookkeeping() {
    let mut t = TranscriptionManager::new();
    assert!(!t.is_loaded());
    assert_eq!(t.ready().unwrap_err(), "Модель не загружена");
    assert!(t.needs_load("whisper-tiny"));
    t.record_loaded("whisper-tiny");
    assert!(!t.needs_load("whisper-tiny"));
    assert!(t.needs_load("whisper-base"));
    assert_eq!(t.loaded_model_id(), Some("whisper-tiny".to_string()));
    assert!(t.ready().is_ok());
    assert_eq!(t.unload_model(), Some("whisper-tiny".to_string()));
    assert!(!t.is_loaded());
    assert_eq!(t.unload_model(), None);
}

#[test]
fn idle_unload_after_timeout() {
    let mut t = TranscriptionManager::new();
    assert!(!t.idle_unload_due(u64::MAX, 10));
    t.record_loaded("whisper-base");
    assert!(!t.idle_unload_due(599_999, 10));
    assert!(t.idle_unload_due(600_000, 10));
    assert!(!t.idle_unload_due(u64::MAX, 0));
    assert!(t.idle_unload_due(u64::MAX, u32::MAX));
    assert!(!t.idle_unload_due(257_698_037_699_999, u32::MAX));
}

#[test]
fn load_history_keeps_last_load() {
    let mut t = TranscriptionManager::new();
    t.record_loaded("whisper-tiny");
    t.record_loaded("gigaam-v3");
    assert_eq!(t.loaded_model_id(), Some("gigaam-v3".to_string()));
    t.unload_model();
    t.unload_model();
    assert_eq!(t.loaded_model_id(), None);
    t.record_loaded("whisper-tiny");
    t.record_loaded("whisper-tiny");
    assert_eq!(t.loaded_model_id(), Some("whisper-tiny".to_string()));
}

#[test]
fn result_text_is_trimmed() {
    let r = make_result("  Привет, мир \n", 42);
    assert_eq!(r.text, "Привет, мир");
    assert_eq!(r.duration_ms, 42);
    // Unicode white space goes too: no-break and ideographic spaces.
    assert_eq!(make_result("\u{a0}\u{3000}текст\u{2029}", 1).text, "текст");
    assert_eq!(make_result(" \t\r\n", 1).text, "");
    assert_eq!(make_result("a b", 1).text, "a b");
}

#[test]
fn default_settings() {
    let s = Settings::default();
    assert_eq!(s.selected_model, None);
    assert_eq!(s.selected_language, "ru");
    assert!(!s.translate_to_english);
    assert_eq!(s.model_unload_timeout_minutes, 10);
    assert_eq!(s.output_directory, None);
    assert!(!s.auto_save);
}

#[test]
fn lookup_answers_and_names() {
    assert_eq!(lookup_answer("".to_string()), None);
    assert_eq!(lookup_answer("/bin/ffmpeg".to_string()), Some("/bin/ffmpeg".to_string()));
    assert_eq!(FfmpegManager::temp_wav_name_for("abc"), "handyfiles_abc.wav");
}
