use handyfiles::text::PathStyle;
use handyfiles::managers::audio::{
    ffmpeg_extensions, is_native_supported, native_extensions, needs_resampling, second_boundary_crossed,
};
use handyfiles::managers::model::{
    find_model, get_model_registry, DownloadNotice, DownloadProgress, EngineType, ModelManager,
};

#[test]
fn native_formats_case_insensitive() {
    assert!(is_native_supported("mp3"));
    assert!(is_native_supported("MP3"));
    assert!(is_native_supported("WebM"));
    assert!(!is_native_supported("avi"));
    assert!(!is_native_supported("wma"));
    assert!(!is_native_supported(""));
    // The Kelvin sign lower-cases to an ASCII `k`.
    assert!(is_native_supported("m\u{212A}v"));
    assert!(!is_native_supported("ＭＰ３"));
}

#[test]
fn extension_lists() {
    assert_eq!(
        native_extensions(),
        vec!["mp3", "wav", "flac", "ogg", "m4a", "aac", "mp4", "mkv", "webm"]
    );
    assert_eq!(ffmpeg_extensions(), vec!["avi", "mov", "wma"]);
    for e in ffmpeg_extensions() {
        assert!(!native_extensions().contains(&e));
    }
}

#[test]
fn resampling_needed_off_16k() {
    assert!(!needs_resampling(16000));
    assert!(needs_resampling(44100));
}

#[test]
fn registry_contents() {
    let reg = get_model_registry();
    assert_eq!(reg.len(), 7);
    assert_eq!(reg[0].id, "whisper-tiny");
    assert_eq!(reg[0].filename, "ggml-tiny.bin");
    assert_eq!(reg[0].size_mb, 75);
    assert_eq!(reg[5].id, "whisper-large-v3-turbo");
    assert_eq!(reg[5].size_mb, 1600);
    assert_eq!(reg[6].id, "gigaam-v3");
    assert_eq!(reg[6].name, "GigaAM v3");
    assert_eq!(reg[6].size_mb, 151);
    assert_eq!(reg[6].engine, EngineType::GigaAM);
    assert!(reg[6].is_archive());
    assert!(!reg[0].is_archive());
    for def in &reg[..6] {
        assert_eq!(def.engine, EngineType::Whisper);
    }
    assert_eq!(
        reg[3].url,
        "https://huggingface.co/ggerganov/whisper.cpp/resolve/main/ggml-medium.bin"
    );
    for i in 0..reg.len() {
        for j in (i + 1)..reg.len() {
            assert_ne!(reg[i].id, reg[j].id);
            assert_ne!(reg[i].filename, reg[j].filename);
        }
    }
}

#[test]
fn find_each_model() {
    for def in get_model_registry() {
        let found = find_model(&def.id).unwrap();
        assert_eq!(found.filename, def.filename);
        assert_eq!(manager_with(&[]).get_engine_type(&def.id), Some(def.engine));
    }
    assert!(find_model("whisper-huge").is_none());
    assert_eq!(manager_with(&[]).get_engine_type("nope"), None);
    assert_eq!(manager_with(&[]).get_engine_type("gigaam-v3"), Some(EngineType::GigaAM));
}

fn manager_with(files: &[&str]) -> ModelManager {
    let mut m = ModelManager::new("/data/models".to_string(), PathStyle::Unix);
    m.record_present_files(files.iter().map(|s| s.to_string()).collect());
    m
}

#[test]
fn model_paths_follow_present_files() {
    let m = manager_with(&["ggml-base.bin"]);
    assert_eq!(m.models_dir(), "/data/models");
    assert_eq!(m.get_model_path_by_id("whisper-base"), Some("/data/models/ggml-base.bin".to_string()));
    assert_eq!(m.get_model_path_by_id("whisper-tiny"), None);
    assert_eq!(m.get_model_path_by_id("unknown"), None);
    let reg = get_model_registry();
    assert_eq!(m.model_path(&reg[1]), Some("/data/models/ggml-base.bin".to_string()));
    assert_eq!(m.model_path(&reg[0]), None);
}

#[test]
fn get_models_reports_status() {
    let mut m = manager_with(&["ggml-small.bin"]);
    m.start_download("whisper-tiny").unwrap();
    let models = m.get_models();
    assert_eq!(models.len(), 7);
    assert!(models[2].is_downloaded);
    assert!(!models[2].is_downloading);
    assert!(!models[0].is_downloaded);
    assert!(models[0].is_downloading);
    assert_eq!(models[4].name, "Whisper Large v3");
}

#[test]
fn download_bookkeeping() {
    let mut m = manager_with(&[]);
    let def = m.start_download("whisper-small").unwrap();
    assert_eq!(def.filename, "ggml-small.bin");
    assert_eq!(m.downloading(), vec!["whisper-small".to_string()]);
    let again = m.start_download("whisper-small");
    assert_eq!(again.unwrap_err(), "Модель уже скачивается");
    let missing = m.start_download("whisper-xl");
    assert_eq!(missing.unwrap_err(), "Модель whisper-xl не найдена");
    let notice = m.end_download(&def.id, Ok(()));
    match notice {
        DownloadNotice::Complete(c) => assert_eq!(c.model_id, "whisper-small"),
        DownloadNotice::Failed(_) => panic!("expected completion"),
    }
    assert!(m.downloading().is_empty());
}

#[test]
fn download_round_trip_keeps_others() {
    let mut m = manager_with(&[]);
    m.start_download("whisper-tiny").unwrap();
    let before = m.downloading();
    let def = m.start_download("whisper-base").unwrap();
    let notice = m.end_download(&def.id, Err("сеть".to_string()));
    match notice {
        DownloadNotice::Failed(f) => {
            assert_eq!(f.model_id, "whisper-base");
            assert_eq!(f.error, "сеть");
        }
        DownloadNotice::Complete(_) => panic!("expected failure"),
    }
    assert_eq!(m.downloading(), before);
}

#[test]
fn delete_paths() {
    let m = manager_with(&[]);
    let (file, partial) = m.delete_model("whisper-medium").unwrap();
    assert_eq!(file, "/data/models/ggml-medium.bin");
    assert_eq!(partial, "/data/models/ggml-medium.bin.partial");
    assert_eq!(m.delete_model("x").unwrap_err(), "Модель x не найдена");
}

#[test]
fn gigaam_model_directory() {
    let m = manager_with(&["giga-am-v3"]);
    assert_eq!(m.get_model_path_by_id("gigaam-v3"), Some("/data/models/giga-am-v3".to_string()));
    let def = find_model("gigaam-v3").unwrap();
    assert_eq!(m.unpack_path(&def), "/data/models/giga-am-v3.extracting");
    let (dir, partial) = m.download_paths(&def);
    assert_eq!(dir, "/data/models/giga-am-v3");
    assert_eq!(partial, "/data/models/giga-am-v3.partial");
}

#[test]
fn progress_never_passes_total() {
    let p = DownloadProgress::new("whisper-tiny".to_string(), 500, 1000, 7);
    assert_eq!((p.downloaded_bytes, p.total_bytes, p.speed_bps), (500, 1000, 7));
    assert_eq!(p.progress_bytes(), 500);
    let q = DownloadProgress::new("gigaam-v3".to_string(), 1500, 1000, 0);
    assert_eq!((q.downloaded_bytes, q.total_bytes), (1500, 1000));
    assert_eq!(q.progress_bytes(), 1000);
    let r = DownloadProgress::new("x".to_string(), 0, 0, 0);
    assert_eq!(r.progress_bytes(), 0);
}

#[test]
fn progress_reported_once_per_second_of_audio() {
    assert!(second_boundary_crossed(16000, 16000, 1024));
    assert!(second_boundary_crossed(16500, 16000, 1024));
    assert!(!second_boundary_crossed(17100, 16000, 1024));
    assert!(!second_boundary_crossed(2048, 16000, 1024));
}
