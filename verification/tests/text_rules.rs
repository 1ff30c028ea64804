use handyfiles::text::{clean_path, first_line_of, trim};
use handyfiles::text::{contains_str, eq_str, extension, file_name, path_join, PathStyle};

const U: PathStyle = PathStyle::Unix;
const W: PathStyle = PathStyle::Windows;

#[test]
fn file_name_of_plain_path() {
    assert_eq!(file_name(U, "/music/song.mp3"), Some("song.mp3".to_string()));
    assert_eq!(file_name(U, "song.mp3"), Some("song.mp3".to_string()));
}

#[test]
fn file_name_skips_trailing_separators_and_dots() {
    assert_eq!(file_name(U, "/music/album/"), Some("album".to_string()));
    assert_eq!(file_name(U, "a/b/."), Some("b".to_string()));
    assert_eq!(file_name(U, "a//b"), Some("b".to_string()));
}

#[test]
fn file_name_none_cases() {
    assert_eq!(file_name(U, ""), None);
    assert_eq!(file_name(U, "/"), None);
    assert_eq!(file_name(U, "."), None);
    assert_eq!(file_name(U, "a/.."), None);
}

#[test]
fn extension_cases() {
    assert_eq!(extension(U, "/x/clip.MKV"), Some("MKV".to_string()));
    assert_eq!(extension(U, "archive.tar.gz"), Some("gz".to_string()));
    assert_eq!(extension(U, "/x/.hidden"), None);
    assert_eq!(extension(U, "/x/.hidden.wav"), Some("wav".to_string()));
    assert_eq!(extension(U, "/x/noext"), None);
    assert_eq!(extension(U, "name."), Some("".to_string()));
    assert_eq!(extension(U, "/x/"), None);
}

#[test]
fn extension_matches_std_path() {
    for p in ["/a/b.mp3", "b", ".b", "a.b.c", "dir/", "x/..", "x/./y.z", "y.", "a/.b.c"] {
        let std_ext = std::path::Path::new(p).extension().map(|e| e.to_str().unwrap().to_string());
        assert_eq!(extension(U, p), std_ext, "path {p}");
        let std_name = std::path::Path::new(p).file_name().map(|e| e.to_str().unwrap().to_string());
        assert_eq!(file_name(U, p), std_name, "path {p}");
    }
}

#[test]
fn path_join_cases() {
    assert_eq!(path_join(U, "/data/models", "ggml-tiny.bin"), "/data/models/ggml-tiny.bin");
    assert_eq!(path_join(U, "/data/models/", "ggml-tiny.bin"), "/data/models/ggml-tiny.bin");
    assert_eq!(path_join(U, "", "ggml-tiny.bin"), "ggml-tiny.bin");
    assert_eq!(path_join(U, "/data", "/etc/x"), "/etc/x");
}

#[test]
fn join_then_file_name_gives_the_name() {
    for dir in ["", "/", "/data", "/data/", "rel/dir"] {
        let joined = path_join(U, dir, "ggml-base.bin");
        assert_eq!(file_name(U, &joined), Some("ggml-base.bin".to_string()));
    }
}

#[test]
fn string_equality_and_membership() {
    assert!(eq_str("wav", "wav"));
    assert!(!eq_str("wav", "wa"));
    assert!(!eq_str("wav", "waV"));
    let list = vec!["a".to_string(), "bc".to_string()];
    assert!(contains_str(&list, "bc"));
    assert!(!contains_str(&list, "b"));
}

#[test]
fn trimming_and_lines() {
    assert_eq!(trim(" x "), "x");
    assert_eq!(trim("\u{85}\u{2000}x y\u{202f}\u{205f}"), "x y");
    assert_eq!(trim("\u{200b}x"), "\u{200b}x");
    assert_eq!(trim(""), "");
    assert_eq!(first_line_of("a\r\nb"), "a\r");
    assert_eq!(first_line_of("one"), "one");
    assert_eq!(first_line_of("\nrest"), "");
    assert!(clean_path("/usr/bin/ffmpeg"));
    assert!(!clean_path(""));
    assert!(!clean_path(" /x"));
    assert!(!clean_path("/x\n"));
}

#[test]
fn windows_paths() {
    assert_eq!(file_name(W, "C:\\Users\\me\\talk.MP3"), Some("talk.MP3".to_string()));
    assert_eq!(extension(W, "C:\\Users\\me\\talk.MP3"), Some("MP3".to_string()));
    assert_eq!(file_name(W, "D:/mixed\\sep/clip.mkv"), Some("clip.mkv".to_string()));
    assert_eq!(file_name(W, "C:talk.wav"), Some("talk.wav".to_string()));
    assert_eq!(file_name(W, "C:"), None);
    assert_eq!(file_name(W, "C:\\"), None);
    assert_eq!(file_name(W, "a\\b\\.."), None);
    assert_eq!(extension(W, "C:.hidden"), None);
    // On Unix a backslash is an ordinary character.
    assert_eq!(file_name(U, "a\\b.wav"), Some("a\\b.wav".to_string()));
    assert_eq!(path_join(W, "C:\\data\\models", "ggml-tiny.bin"), "C:\\data\\models\\ggml-tiny.bin");
    assert_eq!(path_join(W, "C:\\data\\", "ggml-tiny.bin"), "C:\\data\\ggml-tiny.bin");
    assert_eq!(path_join(W, "C:", "x.bin"), "C:x.bin");
    assert_eq!(path_join(W, "C:\\data", "D:\\other"), "D:\\other");
    for dir in ["", "C:", "C:\\", "C:\\m", "\\\\srv\\share", "rel"] {
        let joined = path_join(W, dir, "ggml-base.bin");
        assert_eq!(file_name(W, &joined), Some("ggml-base.bin".to_string()), "dir {dir}");
    }
}
