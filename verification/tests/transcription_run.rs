use handyfiles::text::PathStyle;
use handyfiles::commands::{get_queue, queue_files, select_model, DecodeRoute, FileCheck};
use handyfiles::managers::ffmpeg::FfmpegManager;
use handyfiles::managers::model::ModelManager;
use handyfiles::managers::transcription::TranscriptionManager;
use handyfiles::managers::{AppState, FileStatus, Preferences};
use handyfiles::transcribe_run::{start_run, step_run, RunAction, RunEvent, RunPhase};

fn state(ffmpeg: Option<&str>) -> AppState {
    let mut models = ModelManager::new("/m".to_string(), PathStyle::Unix);
    models.record_present_files(vec!["ggml-base.bin".to_string()]);
    let mut s = AppState::new(
        PathStyle::Unix,
        FfmpegManager::new(ffmpeg.map(|p| p.to_string())),
        models,
        TranscriptionManager::new(),
        Preferences { selected_model: None, language: None },
    );
    select_model("whisper-base".to_string(), &mut s).unwrap();
    s
}

fn queue(s: &mut AppState, path: &str) -> String {
    let check = FileCheck { is_file: true, readable: true, audio_track: None };
    queue_files(vec![path.to_string()], vec![check], s).unwrap()[0].id.clone()
}

#[test]
fn run_completes_with_trimmed_text() {
    let mut s = state(None);
    let id = queue(&mut s, "/a/talk.mp3");
    let (mut run, action) = start_run(&mut s, &id).unwrap();
    assert_eq!(action, RunAction::DecodeNative);
    assert_eq!(run.job.model_path, "/m/ggml-base.bin");
    assert_eq!(get_queue(&s)[0].status, FileStatus::Converting);

    assert_eq!(step_run(&mut s, &mut run, RunEvent::Decoded), RunAction::LoadModel);
    assert_eq!(get_queue(&s)[0].status, FileStatus::Transcribing);

    assert_eq!(step_run(&mut s, &mut run, RunEvent::ModelLoaded), RunAction::Transcribe);
    assert_eq!(s.transcription.loaded_model_id(), Some("whisper-base".to_string()));

    let done = step_run(&mut s, &mut run, RunEvent::Transcribed("  Привет \n".to_string(), 900));
    assert_eq!(done, RunAction::Finish(Ok(())));
    let f = &get_queue(&s)[0];
    assert_eq!(f.status, FileStatus::Completed);
    assert_eq!(f.result, Some("Привет".to_string()));
    assert_eq!(f.duration_ms, Some(900));
    assert_eq!(f.error, None);

    // A finished run stays finished.
    assert_eq!(step_run(&mut s, &mut run, RunEvent::Decoded), RunAction::Finish(Ok(())));
    assert_eq!(run.phase, RunPhase::Completed);
}

#[test]
fn native_failure_falls_back_to_ffmpeg() {
    let mut s = state(Some("/usr/bin/ffmpeg"));
    let id = queue(&mut s, "/a/odd.m4a");
    let (mut run, _) = start_run(&mut s, &id).unwrap();
    let next = step_run(&mut s, &mut run, RunEvent::DecodeFailed("bad header".to_string()));
    assert_eq!(next, RunAction::DecodeWithFfmpeg);
    assert_eq!(run.phase, RunPhase::Decoding(DecodeRoute::Ffmpeg));
    assert_eq!(get_queue(&s)[0].status, FileStatus::Converting);

    let end = step_run(&mut s, &mut run, RunEvent::DecodeFailed("FFmpeg завершился с кодом 1".to_string()));
    assert_eq!(end, RunAction::Finish(Err("FFmpeg завершился с кодом 1".to_string())));
    let f = &get_queue(&s)[0];
    assert_eq!(f.status, FileStatus::Error);
    assert_eq!(f.error, Some("FFmpeg завершился с кодом 1".to_string()));
}

#[test]
fn native_failure_without_ffmpeg_is_an_error() {
    let mut s = state(None);
    let id = queue(&mut s, "/a/odd.m4a");
    let (mut run, _) = start_run(&mut s, &id).unwrap();
    let end = step_run(&mut s, &mut run, RunEvent::DecodeFailed("bad header".to_string()));
    let msg = "Формат m4a не поддерживается нативно, а FFmpeg не найден. Установите: brew install ffmpeg";
    assert_eq!(end, RunAction::Finish(Err(msg.to_string())));
    assert_eq!(get_queue(&s)[0].status, FileStatus::Error);
    assert_eq!(get_queue(&s)[0].error, Some(msg.to_string()));
}

#[test]
fn ffmpeg_only_format_without_ffmpeg_fails_after_converting() {
    let mut s = state(None);
    let id = queue(&mut s, "/v/old.avi");
    let (mut run, action) = start_run(&mut s, &id).unwrap();
    assert_eq!(action, RunAction::DecodeWithFfmpeg);
    assert_eq!(run.phase, RunPhase::Decoding(DecodeRoute::Ffmpeg));
    assert_eq!(get_queue(&s)[0].status, FileStatus::Converting);

    let missing = "FFmpeg не найден. Установите: brew install ffmpeg".to_string();
    let end = step_run(&mut s, &mut run, RunEvent::DecodeFailed(missing));
    let msg = "Формат avi не поддерживается нативно, а FFmpeg не найден. Установите: brew install ffmpeg";
    assert_eq!(end, RunAction::Finish(Err(msg.to_string())));
    assert_eq!(run.phase, RunPhase::Failed(msg.to_string()));
    assert_eq!(get_queue(&s)[0].status, FileStatus::Error);
    assert_eq!(get_queue(&s)[0].error, Some(msg.to_string()));

    let mut t = state(Some("/usr/bin/ffmpeg"));
    let id = queue(&mut t, "/v/old.avi");
    let (_, action) = start_run(&mut t, &id).unwrap();
    assert_eq!(action, RunAction::DecodeWithFfmpeg);
    assert_eq!(get_queue(&t)[0].status, FileStatus::Converting);
}

#[test]
fn load_and_engine_failures_are_recorded() {
    let mut s = state(None);
    let id = queue(&mut s, "/a/talk.wav");
    let (mut run, _) = start_run(&mut s, &id).unwrap();
    step_run(&mut s, &mut run, RunEvent::Decoded);
    // An event the run does not wait for changes nothing.
    assert_eq!(step_run(&mut s, &mut run, RunEvent::Decoded), RunAction::LoadModel);
    let end = step_run(&mut s, &mut run, RunEvent::LoadFailed("Ошибка загрузки Whisper: x".to_string()));
    assert_eq!(end, RunAction::Finish(Err("Ошибка загрузки Whisper: x".to_string())));
    assert_eq!(get_queue(&s)[0].error, Some("Ошибка загрузки Whisper: x".to_string()));
    assert_eq!(s.transcription.loaded_model_id(), None);

    let id = queue(&mut s, "/a/other.wav");
    let (mut run, _) = start_run(&mut s, &id).unwrap();
    step_run(&mut s, &mut run, RunEvent::Decoded);
    step_run(&mut s, &mut run, RunEvent::ModelLoaded);
    let end = step_run(&mut s, &mut run, RunEvent::TranscribeFailed("Ошибка Whisper: y".to_string()));
    assert_eq!(end, RunAction::Finish(Err("Ошибка Whisper: y".to_string())));
    assert_eq!(get_queue(&s)[1].status, FileStatus::Error);
}

#[test]
fn runs_that_cannot_start_change_nothing() {
    let mut s = state(None);
    assert_eq!(start_run(&mut s, "nope").unwrap_err(), "Файл не найден в очереди");
    let mut u = AppState::new(
        PathStyle::Unix,
        FfmpegManager::new(None),
        ModelManager::new("/m".to_string(), PathStyle::Unix),
        TranscriptionManager::new(),
        Preferences { selected_model: None, language: None },
    );
    let id = queue(&mut u, "/a/talk.wav");
    assert_eq!(start_run(&mut u, &id).unwrap_err(), "Модель не выбрана");
    assert_eq!(get_queue(&u)[0].status, FileStatus::Queued);
}
