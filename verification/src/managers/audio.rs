use vstd::prelude::*;

use crate::text::{ascii_lowercase, contains_str, strings_view, to_lowercase, unicode_lowercase};
use vstd::utf8::is_ascii_chars;

verus! {

/// Sample rate, in Hz, of the audio that transcription takes.
pub const TARGET_SAMPLE_RATE: u32 = 16000;

/// Extensions that the built-in decoder reads.
pub open spec fn native_extension_list() -> Seq<Seq<char>> {
    seq!["mp3"@, "wav"@, "flac"@, "ogg"@, "m4a"@, "aac"@, "mp4"@, "mkv"@, "webm"@]
}

/// Extensions that only the FFmpeg fallback reads.
pub open spec fn ffmpeg_extension_list() -> Seq<Seq<char>> {
    seq!["avi"@, "mov"@, "wma"@]
}

/// Extensions that the built-in decoder reads, audio formats first, then the
/// video containers whose audio track it extracts.
pub fn native_extensions() -> (res: Vec<String>)
    ensures
        strings_view(res@) == native_extension_list(),
{
    let res = vec![
        "mp3".to_owned(),
        "wav".to_owned(),
        "flac".to_owned(),
        "ogg".to_owned(),
        "m4a".to_owned(),
        "aac".to_owned(),
        "mp4".to_owned(),
        "mkv".to_owned(),
        "webm".to_owned(),
    ];
    assert(strings_view(res@) =~= native_extension_list());
    res
}

/// Extensions that need the FFmpeg fallback.
pub fn ffmpeg_extensions() -> (res: Vec<String>)
    ensures
        strings_view(res@) == ffmpeg_extension_list(),
{
    let res = vec!["avi".to_owned(), "mov".to_owned(), "wma".to_owned()];
    assert(strings_view(res@) =~= ffmpeg_extension_list());
    res
}

/// Whether the built-in decoder reads files with extension `ext`, in any case.
pub fn is_native_supported(ext: &str) -> (res: bool)
    ensures
        res == native_extension_list().contains(unicode_lowercase(ext@)),
        is_ascii_chars(ext@) ==> res == native_extension_list().contains(ascii_lowercase(ext@)),
{
    let lower = to_lowercase(ext);
    contains_str(&native_extensions(), lower.as_str())
}

/// Whether audio at `source_rate` Hz must be resampled before transcription.
pub fn needs_resampling(source_rate: u32) -> (res: bool)
    ensures
        res == (source_rate != TARGET_SAMPLE_RATE),
{
    source_rate != TARGET_SAMPLE_RATE
}

/// Whether the last decoded packet, of `num_frames` frames, took the decoded
/// total to `decoded_frames` across a whole second of audio at `sample_rate`:
/// the moment at which decoding reports its progress.
pub fn second_boundary_crossed(decoded_frames: u64, sample_rate: u32, num_frames: u64) -> (res: bool)
    requires
        sample_rate > 0,
    ensures
        res == (decoded_frames % (sample_rate as u64) < num_frames),
{
    decoded_frames % (sample_rate as u64) < num_frames
}

} // verus!
