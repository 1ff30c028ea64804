use vstd::prelude::*;

use crate::ids::is_uuid_v4;
use crate::managers::audio::{ffmpeg_extension_list, is_native_supported, native_extension_list};
use crate::managers::ffmpeg::FfmpegManager;
use crate::managers::model::{model_path_spec, registry_find, EngineType, ModelInfo};
use crate::managers::{is_downloaded_id, AppState, FileStatus, QueuedFile};
use crate::text::{
    extension_spec,
    file_name_spec,
    opt_view,
    strings_view,
    unicode_lowercase,
    PathStyle,
};

verus! {

// ── Models ──────────────────────────────────────────────────────

/// The models on offer, each with whether it is downloaded and whether it is
/// being downloaded.
pub fn get_models(state: &AppState) -> (res: Vec<ModelInfo>)
    ensures
        res@.len() == crate::managers::model::model_registry().len(),
        forall|i: int|
            0 <= i < res@.len() ==> crate::managers::model::info_matches(
                #[trigger] res@[i],
                state.models@,
                crate::managers::model::model_registry()[i],
            ),
        forall|i: int|
            0 <= i < res@.len() ==> {
                &&& (#[trigger] res@[i]).id@ == crate::managers::model::model_registry()[i].id
                &&& res@[i].engine == crate::managers::model::model_registry()[i].engine
                &&& res@[i].size_mb == crate::managers::model::model_registry()[i].size_mb
                &&& res@[i].is_downloaded == state.models@.present.contains(
                    crate::managers::model::model_registry()[i].filename,
                )
                &&& res@[i].is_downloading == state.models@.downloading.contains(
                    crate::managers::model::model_registry()[i].id,
                )
            },
{
    state.models.get_models()
}

/// The message for a selection of a model that is not downloaded.
pub open spec fn not_downloaded_message() -> Seq<char> {
    "Модель не скачана"@
}

/// Selects the model `model_id` for transcription; refused unless that model is
/// downloaded. Once it succeeds, `get_selected_model` returns `model_id`.
pub fn select_model(model_id: String, state: &mut AppState) -> (res: Result<(), String>)
    ensures
        res is Ok <==> is_downloaded_id(old(state).models@, model_id@),
        res is Ok ==> final(state).selected_model == Some(model_id),
        res matches Err(e) ==> e@ == not_downloaded_message() && final(state).selected_model == old(
            state,
        ).selected_model,
        final(state).path_style == old(state).path_style,
        final(state).models == old(state).models,
        final(state).ffmpeg == old(state).ffmpeg,
        final(state).transcription == old(state).transcription,
        final(state).queued_files == old(state).queued_files,
        final(state).selected_language == old(state).selected_language,
{
    if state.models.get_model_path_by_id(model_id.as_str()).is_none() {
        return Err("Модель не скачана".to_owned());
    }
    state.selected_model = Some(model_id);
    Ok(())
}

/// The selected model.
pub fn get_selected_model(state: &AppState) -> (res: Option<String>)
    ensures
        res == state.selected_model,
{
    crate::text::clone_opt(&state.selected_model)
}

/// Sets the transcription language; `get_language` then returns it.
pub fn set_language(language: String, state: &mut AppState)
    ensures
        final(state).selected_language == language,
        final(state).path_style == old(state).path_style,
        final(state).models == old(state).models,
        final(state).ffmpeg == old(state).ffmpeg,
        final(state).transcription == old(state).transcription,
        final(state).queued_files == old(state).queued_files,
        final(state).selected_model == old(state).selected_model,
{
    state.selected_language = language;
}

/// The transcription language.
pub fn get_language(state: &AppState) -> (res: String)
    ensures
        res == state.selected_language,
{
    state.selected_language.clone()
}

// ── Decoders ────────────────────────────────────────────────────

/// Which formats can be read, and whether and where FFmpeg is.
#[derive(Debug)]
pub struct DecoderStatus {
    pub native_formats: Vec<String>,
    pub ffmpeg_available: bool,
    pub ffmpeg_path: Option<String>,
    pub ffmpeg_formats: Vec<String>,
}

/// Which formats can be read, and whether and where FFmpeg is.
pub fn get_decoder_status(state: &AppState) -> (res: DecoderStatus)
    ensures
        strings_view(res.native_formats@) == native_extension_list(),
        res.ffmpeg_available == state.ffmpeg@ is Some,
        opt_view(res.ffmpeg_path) == state.ffmpeg@,
        strings_view(res.ffmpeg_formats@) == ffmpeg_extension_list(),
{
    DecoderStatus {
        native_formats: crate::managers::audio::native_extensions(),
        ffmpeg_available: state.ffmpeg.is_available(),
        ffmpeg_path: state.ffmpeg.binary_path(),
        ffmpeg_formats: crate::managers::audio::ffmpeg_extensions(),
    }
}

// ── File queue ──────────────────────────────────────────────────

/// The extensions that the queue takes, video containers first.
pub open spec fn queue_extension_list() -> Seq<Seq<char>> {
    seq![
        "mp4"@,
        "mkv"@,
        "mov"@,
        "avi"@,
        "webm"@,
        "mp3"@,
        "wav"@,
        "flac"@,
        "ogg"@,
        "m4a"@,
        "aac"@,
        "wma"@,
    ]
}

/// The extensions of the video containers that the queue takes.
pub open spec fn video_extension_list() -> Seq<Seq<char>> {
    seq!["mp4"@, "mkv"@, "mov"@, "avi"@, "webm"@]
}

/// The video formats are the first five formats that the queue takes, and
/// the queue names no format twice, so none of the seven audio formats after
/// them counts as video.
pub proof fn lemma_video_formats()
    ensures
        video_extension_list() == queue_extension_list().take(5),
        queue_extension_list().no_duplicates(),
{
    reveal_strlit("mp4");
    reveal_strlit("mkv");
    reveal_strlit("mov");
    reveal_strlit("avi");
    reveal_strlit("webm");
    reveal_strlit("mp3");
    reveal_strlit("wav");
    reveal_strlit("flac");
    reveal_strlit("ogg");
    reveal_strlit("m4a");
    reveal_strlit("aac");
    reveal_strlit("wma");
    let q = queue_extension_list();
    assert(video_extension_list() =~= q.take(5));
    assert forall|i: int, j: int| 0 <= i < q.len() && 0 <= j < q.len() && i != j implies q[i] != q[j] by {
        assert(q[i][0] != q[j][0] || q[i][1] != q[j][1] || q[i][2] != q[j][2] || q[i].len() != q[j].len());
    }
}

/// The queue takes exactly the formats that one of the two decoders reads,
/// and no format is read by both.
pub proof fn lemma_queue_extensions_partition()
    ensures
        forall|e: Seq<char>|
            queue_extension_list().contains(e) <==> (native_extension_list().contains(e)
                || ffmpeg_extension_list().contains(e)),
        forall|e: Seq<char>| !(native_extension_list().contains(e) && ffmpeg_extension_list().contains(e)),
{
    reveal_strlit("mp4");
    reveal_strlit("mkv");
    reveal_strlit("mov");
    reveal_strlit("avi");
    reveal_strlit("webm");
    reveal_strlit("mp3");
    reveal_strlit("wav");
    reveal_strlit("flac");
    reveal_strlit("ogg");
    reveal_strlit("m4a");
    reveal_strlit("aac");
    reveal_strlit("wma");
    let q = queue_extension_list();
    let n = native_extension_list();
    let f = ffmpeg_extension_list();
    assert forall|e: Seq<char>| q.contains(e) <==> (n.contains(e) || f.contains(e)) by {
        if q.contains(e) {
            let i = choose|i: int| 0 <= i < q.len() && q[i] == e;
            if i == 0 { assert(n[6] == e); }
            else if i == 1 { assert(n[7] == e); }
            else if i == 2 { assert(f[1] == e); }
            else if i == 3 { assert(f[0] == e); }
            else if i == 4 { assert(n[8] == e); }
            else if i == 5 { assert(n[0] == e); }
            else if i == 6 { assert(n[1] == e); }
            else if i == 7 { assert(n[2] == e); }
            else if i == 8 { assert(n[3] == e); }
            else if i == 9 { assert(n[4] == e); }
            else if i == 10 { assert(n[5] == e); }
            else { assert(f[2] == e); }
        }
        if n.contains(e) {
            let i = choose|i: int| 0 <= i < n.len() && n[i] == e;
            if i == 0 { assert(q[5] == e); }
            else if i == 1 { assert(q[6] == e); }
            else if i == 2 { assert(q[7] == e); }
            else if i == 3 { assert(q[8] == e); }
            else if i == 4 { assert(q[9] == e); }
            else if i == 5 { assert(q[10] == e); }
            else if i == 6 { assert(q[0] == e); }
            else if i == 7 { assert(q[1] == e); }
            else { assert(q[4] == e); }
        }
        if f.contains(e) {
            let i = choose|i: int| 0 <= i < f.len() && f[i] == e;
            if i == 0 { assert(q[3] == e); }
            else if i == 1 { assert(q[2] == e); }
            else { assert(q[11] == e); }
        }
    }
    assert forall|e: Seq<char>| !(n.contains(e) && f.contains(e)) by {
        if n.contains(e) && f.contains(e) {
            let i = choose|i: int| 0 <= i < n.len() && n[i] == e;
            let j = choose|j: int| 0 <= j < f.len() && f[j] == e;
            assert(n[i][0] != f[j][0] || n[i][1] != f[j][1] || n[i].len() != f[j].len());
        }
    }
}

/// The lower-cased extension of `path`, empty when it has none.
pub open spec fn lower_extension(style: PathStyle, path: Seq<char>) -> Seq<char> {
    match extension_spec(style, path) {
        Some(e) => unicode_lowercase(e),
        None => Seq::empty(),
    }
}

/// What was found out about a dropped path on disk: whether it names a file,
/// whether that file could be opened for reading, and whether it holds an
/// audio track (`None` when the built-in decoder cannot look inside it, as
/// for the formats that only FFmpeg reads).
#[derive(Clone, Copy, Debug, PartialEq, Eq, Structural)]
pub struct FileCheck {
    pub is_file: bool,
    pub readable: bool,
    pub audio_track: Option<bool>,
}

/// Whether the queue takes `path`: it names a readable file with a supported
/// extension that is not known to lack an audio track. These are the three
/// checks of the queue's validation step (extension, readable, audio track);
/// the last two rest on what the caller found on disk (see `FileCheck`).
pub open spec fn accepts(style: PathStyle, path: Seq<char>, check: FileCheck) -> bool {
    &&& check.is_file
    &&& check.readable
    &&& check.audio_track != Some(false)
    &&& queue_extension_list().contains(lower_extension(style, path))
}

/// The name under which a queued file is shown.
pub open spec fn display_name(style: PathStyle, path: Seq<char>) -> Seq<char> {
    match file_name_spec(style, path) {
        Some(n) => n,
        None => "unknown"@,
    }
}

/// Whether a new queue entry is the one for `path`: a fresh id, its name, its
/// kind, queued and without result, duration or error.
pub open spec fn new_entry_for(style: PathStyle, f: QueuedFile, path: Seq<char>) -> bool {
    &&& is_uuid_v4(f.id@)
    &&& f.path@ == path
    &&& f.filename@ == display_name(style, path)
    &&& f.is_video == video_extension_list().contains(lower_extension(style, path))
    &&& f.status == FileStatus::Queued
    &&& f.result is None
    &&& f.duration_ms is None
    &&& f.error is None
}

/// The paths among `paths` that the queue takes, in order (`checks[i]` is
/// what was found out about `paths[i]`).
pub open spec fn accepted_paths(style: PathStyle, paths: Seq<Seq<char>>, checks: Seq<FileCheck>) -> Seq<Seq<char>>
    decreases paths.len(),
{
    if paths.len() == 0 || checks.len() == 0 {
        Seq::empty()
    } else {
        let rest = accepted_paths(style, paths.drop_last(), checks.drop_last());
        if accepts(style, paths.last(), checks.last()) {
            rest.push(paths.last())
        } else {
            rest
        }
    }
}

/// Whether a path with this check and this lower-cased extension is one the
/// queue takes, said without the queue's own list: a readable file, not known
/// to lack audio, in a format that the built-in decoder or FFmpeg reads.
pub open spec fn takes(check: FileCheck, ext: Seq<char>) -> bool {
    &&& check.is_file
    &&& check.readable
    &&& check.audio_track != Some(false)
    &&& (native_extension_list().contains(ext) || ffmpeg_extension_list().contains(ext))
}

/// The queue takes a path exactly when it is a readable file, not known to
/// lack an audio track, whose lower-cased extension one of the two decoders
/// reads; so every format that either decoder reads (`mp4` among them) is
/// taken, and no other.
pub proof fn lemma_accepts_decodable(style: PathStyle, path: Seq<char>, check: FileCheck)
    ensures
        accepts(style, path, check) <==> takes(check, lower_extension(style, path)),
{
    lemma_queue_extensions_partition();
}

/// The queue keeps the accepted paths, in order: a path is among them exactly
/// when it is one of the dropped paths whose check and extension the queue
/// takes (see `takes`), and there are never more of them than paths dropped.
pub proof fn lemma_accepted_paths_members(style: PathStyle, paths: Seq<Seq<char>>, checks: Seq<FileCheck>, x: Seq<char>)
    requires
        paths.len() == checks.len(),
    ensures
        accepted_paths(style, paths, checks).contains(x) <==> exists|i: int|
            0 <= i < paths.len() && paths[i] == x && takes(checks[i], lower_extension(style, paths[i])),
        accepted_paths(style, paths, checks).len() <= paths.len(),
    decreases paths.len(),
{
    if paths.len() > 0 {
        let pd = paths.drop_last();
        let cd = checks.drop_last();
        lemma_accepted_paths_members(style, pd, cd, x);
        let rest = accepted_paths(style, pd, cd);
        let n = paths.len() - 1;
        lemma_accepts_decodable(style, paths[n], checks[n]);
        if exists|i: int| 0 <= i < pd.len() && pd[i] == x && takes(cd[i], lower_extension(style, pd[i])) {
            let i = choose|i: int| 0 <= i < pd.len() && pd[i] == x && takes(cd[i], lower_extension(style, pd[i]));
            assert(paths[i] == x && checks[i] == cd[i]);
        }
        if exists|i: int| 0 <= i < paths.len() && paths[i] == x && takes(checks[i], lower_extension(style, paths[i])) {
            let i = choose|i: int|
                0 <= i < paths.len() && paths[i] == x && takes(checks[i], lower_extension(style, paths[i]));
            if i < n {
                assert(pd[i] == x && cd[i] == checks[i]);
            }
        }
        if accepts(style, paths.last(), checks.last()) {
            assert(rest.push(paths.last())[rest.len() as int] == paths.last());
            if rest.contains(x) {
                let k = choose|k: int| 0 <= k < rest.len() && rest[k] == x;
                assert(rest.push(paths.last())[k] == x);
            }
            if rest.push(paths.last()).contains(x) && x != paths.last() {
                let k = choose|k: int| 0 <= k < rest.len() + 1 && rest.push(paths.last())[k] == x;
                assert(rest[k] == x);
            }
        }
    }
}

/// The paths of a list of queue entries.
pub open spec fn entry_paths(files: Seq<QueuedFile>) -> Seq<Seq<char>> {
    files.map_values(|f: QueuedFile| f.path@)
}

fn lower_extension_of(style: PathStyle, path: &str) -> (res: String)
    ensures
        res@ == lower_extension(style, path@),
{
    match crate::text::extension(style, path) {
        Some(e) => crate::text::to_lowercase(e.as_str()),
        None => String::new(),
    }
}

fn list_contains(list: Vec<String>, s: &str) -> (res: bool)
    ensures
        res == strings_view(list@).contains(s@),
{
    crate::text::contains_str(&list, s)
}

fn queue_extensions() -> (res: Vec<String>)
    ensures
        strings_view(res@) == queue_extension_list(),
{
    let res = vec![
        "mp4".to_owned(),
        "mkv".to_owned(),
        "mov".to_owned(),
        "avi".to_owned(),
        "webm".to_owned(),
        "mp3".to_owned(),
        "wav".to_owned(),
        "flac".to_owned(),
        "ogg".to_owned(),
        "m4a".to_owned(),
        "aac".to_owned(),
        "wma".to_owned(),
    ];
    assert(strings_view(res@) =~= queue_extension_list());
    res
}

fn video_extensions() -> (res: Vec<String>)
    ensures
        strings_view(res@) == video_extension_list(),
{
    let res = vec!["mp4".to_owned(), "mkv".to_owned(), "mov".to_owned(), "avi".to_owned(), "webm".to_owned()];
    assert(strings_view(res@) =~= video_extension_list());
    res
}

/// Queues each of `paths` that the queue takes (see `accepts`; `checks[i]` is
/// what was found out about `paths[i]`), in order, and returns the new
/// entries.
pub fn queue_files(paths: Vec<String>, checks: Vec<FileCheck>, state: &mut AppState) -> (res: Result<
    Vec<QueuedFile>,
    String,
>)
    requires
        paths.len() == checks.len(),
    ensures
        res matches Ok(added) && entry_paths(added@) == accepted_paths(old(state).path_style, strings_view(paths@), checks@)
            && (forall|k: int| 0 <= k < added@.len() ==> new_entry_for(old(state).path_style, #[trigger] added@[k], added@[k].path@))
            && final(state).queued_files@ == old(state).queued_files@ + added@
            && (forall|i: int|
                0 <= i < paths@.len() && takes(checks@[i], lower_extension(old(state).path_style, paths@[i]@))
                    ==> entry_paths(added@).contains(#[trigger] paths@[i]@))
            && (forall|k: int|
                0 <= k < added@.len() ==> exists|i: int|
                    0 <= i < paths@.len() && paths@[i]@ == #[trigger] added@[k].path@ && takes(
                        checks@[i],
                        lower_extension(old(state).path_style, paths@[i]@),
                    )),
        final(state).path_style == old(state).path_style,
        final(state).models == old(state).models,
        final(state).ffmpeg == old(state).ffmpeg,
        final(state).transcription == old(state).transcription,
        final(state).selected_model == old(state).selected_model,
        final(state).selected_language == old(state).selected_language,
{
    let style = state.path_style;
    let supported = queue_extensions();
    let videos = video_extensions();
    let mut files: Vec<QueuedFile> = Vec::new();
    let n = paths.len();
    let mut i: usize = 0;
    while i < n
        invariant
            n == paths@.len(),
            n == checks@.len(),
            i <= n,
            strings_view(supported@) == queue_extension_list(),
            strings_view(videos@) == video_extension_list(),
            style == state.path_style,
            entry_paths(files@) == accepted_paths(
                style,
                strings_view(paths@).subrange(0, i as int),
                checks@.subrange(0, i as int),
            ),
            forall|k: int| 0 <= k < files@.len() ==> new_entry_for(style, #[trigger] files@[k], files@[k].path@),
        decreases n - i,
    {
        let path = &paths[i];
        let ghost ps = strings_view(paths@).subrange(0, i + 1);
        let ghost fs = checks@.subrange(0, i + 1);
        proof {
            assert(ps.drop_last() =~= strings_view(paths@).subrange(0, i as int));
            assert(fs.drop_last() =~= checks@.subrange(0, i as int));
            assert(ps.last() == path@);
            assert(fs.last() == checks@[i as int]);
        }
        let ext = lower_extension_of(style, path.as_str());
        let check = checks[i];
        if check.is_file && check.readable && !matches!(check.audio_track, Some(false))
            && crate::text::contains_str(&supported, ext.as_str()) {
            let filename = match crate::text::file_name(style, path.as_str()) {
                Some(n) => n,
                None => "unknown".to_owned(),
            };
            let file = QueuedFile {
                id: crate::ids::new_id(),
                path: path.clone(),
                filename,
                is_video: crate::text::contains_str(&videos, ext.as_str()),
                status: FileStatus::Queued,
                result: None,
                duration_ms: None,
                error: None,
            };
            let ghost before = files@;
            files.push(file);
            assert(entry_paths(files@) =~= entry_paths(before).push(path@));
        }
        i = i + 1;
    }
    proof {
        assert(strings_view(paths@).subrange(0, n as int) =~= strings_view(paths@));
        assert(checks@.subrange(0, n as int) =~= checks@);
    }
    let mut k: usize = 0;
    let ghost start = state.queued_files@;
    while k < files.len()
        invariant
            k <= files@.len(),
            state.queued_files@ == start + files@.subrange(0, k as int),
            state.path_style == old(state).path_style,
            state.models == old(state).models,
            state.ffmpeg == old(state).ffmpeg,
            state.transcription == old(state).transcription,
            state.selected_model == old(state).selected_model,
            state.selected_language == old(state).selected_language,
            start == old(state).queued_files@,
        decreases files.len() - k,
    {
        state.queued_files.push(files[k].duplicate());
        assert(state.queued_files@ =~= start + files@.subrange(0, k + 1));
        k = k + 1;
    }
    assert(files@.subrange(0, files@.len() as int) =~= files@);
    proof {
        let sv = strings_view(paths@);
        assert forall|i: int|
            0 <= i < paths@.len() && takes(checks@[i], lower_extension(style, paths@[i]@)) implies entry_paths(
            files@,
        ).contains(#[trigger] paths@[i]@) by {
            assert(sv[i] == paths@[i]@);
            lemma_accepted_paths_members(style, sv, checks@, paths@[i]@);
        }
        assert forall|k: int| 0 <= k < files@.len() implies exists|i: int|
            0 <= i < paths@.len() && paths@[i]@ == #[trigger] files@[k].path@ && takes(
                checks@[i],
                lower_extension(style, paths@[i]@),
            ) by {
            let x = files@[k].path@;
            assert(entry_paths(files@)[k] == x);
            lemma_accepted_paths_members(style, sv, checks@, x);
            let i = choose|i: int| 0 <= i < sv.len() && sv[i] == x && takes(checks@[i], lower_extension(style, sv[i]));
            assert(sv[i] == paths@[i]@);
        }
    }
    Ok(files)
}

/// The queue as it stands.
pub fn get_queue(state: &AppState) -> (res: Vec<QueuedFile>)
    ensures
        res@ == state.queued_files@,
{
    let mut res: Vec<QueuedFile> = Vec::new();
    let mut i: usize = 0;
    while i < state.queued_files.len()
        invariant
            i <= state.queued_files@.len(),
            res@ == state.queued_files@.subrange(0, i as int),
        decreases state.queued_files.len() - i,
    {
        res.push(state.queued_files[i].duplicate());
        assert(res@ =~= state.queued_files@.subrange(0, i + 1));
        i = i + 1;
    }
    assert(res@ =~= state.queued_files@);
    res
}

/// Whether a file with this status is still to be handled: neither completed
/// nor failed.
pub open spec fn is_unfinished(f: QueuedFile) -> bool {
    f.status != FileStatus::Completed && f.status != FileStatus::Error
}

/// Drops the completed and the failed files from the queue, keeping the order
/// of the others.
pub fn clear_completed(state: &mut AppState)
    ensures
        final(state).queued_files@ == old(state).queued_files@.filter(|f: QueuedFile| is_unfinished(f)),
        forall|f: QueuedFile|
            #[trigger] final(state).queued_files@.contains(f) <==> old(state).queued_files@.contains(f) && f.status
                != FileStatus::Completed && f.status != FileStatus::Error,
        final(state).queued_files@.len() <= old(state).queued_files@.len(),
        final(state).path_style == old(state).path_style,
        final(state).models == old(state).models,
        final(state).ffmpeg == old(state).ffmpeg,
        final(state).transcription == old(state).transcription,
        final(state).selected_model == old(state).selected_model,
        final(state).selected_language == old(state).selected_language,
{
    let ghost pred = |f: QueuedFile| is_unfinished(f);
    let ghost q = state.queued_files@;
    let mut kept: Vec<QueuedFile> = Vec::new();
    let mut i: usize = 0;
    while i < state.queued_files.len()
        invariant
            i <= state.queued_files@.len(),
            q == state.queued_files@,
            pred == (|f: QueuedFile| is_unfinished(f)),
            kept@ == q.subrange(0, i as int).filter(pred),
        decreases state.queued_files.len() - i,
    {
        proof {
            assert(q.subrange(0, i + 1) =~= q.subrange(0, i as int).push(q[i as int]));
            q.subrange(0, i as int).lemma_filter_push(q[i as int], pred);
        }
        let status = state.queued_files[i].status;
        if status != FileStatus::Completed && status != FileStatus::Error {
            kept.push(state.queued_files[i].duplicate());
        }
        i = i + 1;
    }
    assert(q.subrange(0, q.len() as int) =~= q);
    proof {
        assert forall|f: QueuedFile| #[trigger] kept@.contains(f) <==> q.contains(f) && f.status != FileStatus::Completed
            && f.status != FileStatus::Error by {
            lemma_clear_keeps_unfinished(q, f);
        }
        lemma_clear_keeps_unfinished(q, q[0]);
    }
    state.queued_files = kept;
}

/// Clearing keeps exactly the files that are neither completed nor failed
/// (queued, converting or transcribing ones stay), and never adds any.
pub proof fn lemma_clear_keeps_unfinished(q: Seq<QueuedFile>, f: QueuedFile)
    ensures
        q.filter(|g: QueuedFile| is_unfinished(g)).contains(f) <==> q.contains(f) && f.status
            != FileStatus::Completed && f.status != FileStatus::Error,
        q.filter(|g: QueuedFile| is_unfinished(g)).len() <= q.len(),
    decreases q.len(),
{
    let pred = |g: QueuedFile| is_unfinished(g);
    reveal(Seq::filter);
    if q.len() > 0 {
        let d = q.drop_last();
        lemma_clear_keeps_unfinished(d, f);
        let r = d.filter(pred);
        assert(q.filter(pred) == if pred(q.last()) { r.push(q.last()) } else { r });
        if d.contains(f) {
            let k = choose|k: int| 0 <= k < d.len() && d[k] == f;
            assert(q[k] == f);
        }
        if q.contains(f) && !d.contains(f) {
            let k = choose|k: int| 0 <= k < q.len() && q[k] == f;
            if k < d.len() {
                assert(d[k] == f);
            }
        }
        if pred(q.last()) {
            assert(r.push(q.last())[r.len() as int] == q.last());
            if r.contains(f) {
                let k = choose|k: int| 0 <= k < r.len() && r[k] == f;
                assert(r.push(q.last())[k] == f);
            }
            if r.push(q.last()).contains(f) && f != q.last() {
                let k = choose|k: int| 0 <= k < r.len() + 1 && r.push(q.last())[k] == f;
                assert(r[k] == f);
            }
        }
    }
}

/// Clearing the finished files twice leaves what clearing them once leaves.
pub proof fn lemma_clear_completed_idempotent(q: Seq<QueuedFile>)
    ensures
        q.filter(|f: QueuedFile| is_unfinished(f)).filter(|f: QueuedFile| is_unfinished(f)) == q.filter(
            |f: QueuedFile| is_unfinished(f),
        ),
    decreases q.len(),
{
    let pred = |f: QueuedFile| is_unfinished(f);
    reveal(Seq::filter);
    if q.len() > 0 {
        lemma_clear_completed_idempotent(q.drop_last());
        let r = q.drop_last().filter(pred);
        if pred(q.last()) {
            r.lemma_filter_push(q.last(), pred);
        }
    }
}

/// The position of the first entry of `q` whose id is `id`, if any.
pub open spec fn file_index(q: Seq<QueuedFile>, id: Seq<char>) -> Option<int> {
    if exists|i: int| 0 <= i < q.len() && q[i].id@ == id && forall|k: int| 0 <= k < i ==> q[k].id@ != id {
        Some(choose|i: int| 0 <= i < q.len() && q[i].id@ == id && forall|k: int| 0 <= k < i ==> q[k].id@ != id)
    } else {
        None
    }
}

fn find_file(q: &Vec<QueuedFile>, id: &str) -> (res: Option<usize>)
    ensures
        match res {
            Some(i) => file_index(q@, id@) == Some(i as int),
            None => file_index(q@, id@) is None,
        },
{
    let mut i: usize = 0;
    while i < q.len()
        invariant
            i <= q@.len(),
            forall|k: int| 0 <= k < i ==> q@[k].id@ != id@,
        decreases q.len() - i,
    {
        if crate::text::eq_str(q[i].id.as_str(), id) {
            let ghost j = i as int;
            assert(0 <= j < q@.len() && q@[j].id@ == id@ && forall|k: int| 0 <= k < j ==> q@[k].id@ != id@);
            let ghost c = choose|c: int| 0 <= c < q@.len() && q@[c].id@ == id@ && forall|k: int| 0 <= k < c ==> q@[k].id@ != id@;
            assert(c == j) by {
                if c < j {
                } else if c > j {
                    assert(q@[j].id@ != id@);
                }
            }
            return Some(i);
        }
        i = i + 1;
    }
    None
}

/// `f` made ready to be transcribed again.
pub open spec fn reset_entry(f: QueuedFile) -> QueuedFile {
    QueuedFile { status: FileStatus::Queued, result: None, duration_ms: None, error: None, ..f }
}

/// The message for an id that names no queued file.
pub open spec fn file_not_found_message() -> Seq<char> {
    "Файл не найден"@
}

/// Puts the file `file_id` back to queued, dropping its result, duration and
/// error; refused for an id that names no queued file.
pub fn reset_file_for_retranscribe(file_id: String, state: &mut AppState) -> (res: Result<(), String>)
    ensures
        match file_index(old(state).queued_files@, file_id@) {
            Some(i) => res is Ok && final(state).queued_files@ == old(state).queued_files@.update(
                i,
                reset_entry(old(state).queued_files@[i]),
            ),
            None => res matches Err(e) && e@ == file_not_found_message() && final(state).queued_files
                == old(state).queued_files,
        },
        final(state).path_style == old(state).path_style,
        final(state).models == old(state).models,
        final(state).ffmpeg == old(state).ffmpeg,
        final(state).transcription == old(state).transcription,
        final(state).selected_model == old(state).selected_model,
        final(state).selected_language == old(state).selected_language,
{
    let i = match find_file(&state.queued_files, file_id.as_str()) {
        Some(i) => i,
        None => {
            return Err("Файл не найден".to_owned());
        },
    };
    let old_entry = &state.queued_files[i];
    let entry = QueuedFile {
        id: old_entry.id.clone(),
        path: old_entry.path.clone(),
        filename: old_entry.filename.clone(),
        is_video: old_entry.is_video,
        status: FileStatus::Queued,
        result: None,
        duration_ms: None,
        error: None,
    };
    state.queued_files.set(i, entry);
    Ok(())
}

/// `f` with the new status, and with each of the result, duration and error
/// that is given.
pub open spec fn updated_entry(
    f: QueuedFile,
    status: FileStatus,
    result: Option<String>,
    duration_ms: Option<u64>,
    error: Option<String>,
) -> QueuedFile {
    QueuedFile {
        status,
        result: if result is Some {
            result
        } else {
            f.result
        },
        duration_ms: if duration_ms is Some {
            duration_ms
        } else {
            f.duration_ms
        },
        error: if error is Some {
            error
        } else {
            f.error
        },
        ..f
    }
}

/// Resetting a file forgets whatever status updates recorded on it: the reset
/// of an updated entry is the reset of the entry.
pub proof fn lemma_reset_forgets_updates(
    f: QueuedFile,
    status: FileStatus,
    result: Option<String>,
    duration_ms: Option<u64>,
    error: Option<String>,
)
    ensures
        reset_entry(updated_entry(f, status, result, duration_ms, error)) == reset_entry(f),
{
}

/// Status updates and resets never add, drop, reorder or rename queued files:
/// every position keeps its id, path, file name and kind.
pub proof fn lemma_updates_keep_files(
    q: Seq<QueuedFile>,
    i: int,
    status: FileStatus,
    result: Option<String>,
    duration_ms: Option<u64>,
    error: Option<String>,
)
    requires
        0 <= i < q.len(),
    ensures
        ({
            let u = q.update(i, updated_entry(q[i], status, result, duration_ms, error));
            let r = q.update(i, reset_entry(q[i]));
            &&& u.len() == q.len() && r.len() == q.len()
            &&& forall|k: int|
                0 <= k < q.len() ==> same_file(#[trigger] u[k], q[k]) && same_file(r[k], q[k])
        }),
{
}

/// A transcription that runs through converting, transcribing and completing
/// leaves the file completed with its text and duration, its error untouched.
pub proof fn lemma_successful_run_entry(f: QueuedFile, text: String, duration_ms: u64)
    ensures
        ({
            let converting = updated_entry(f, FileStatus::Converting, None, None, None);
            let transcribing = updated_entry(converting, FileStatus::Transcribing, None, None, None);
            let done = updated_entry(transcribing, FileStatus::Completed, Some(text), Some(duration_ms), None);
            &&& done.status == FileStatus::Completed
            &&& done.result == Some(text)
            &&& done.duration_ms == Some(duration_ms)
            &&& done.error == f.error
            &&& same_file(done, f)
        }),
{
}

/// Whether two entries describe the same queued file.
pub open spec fn same_file(a: QueuedFile, b: QueuedFile) -> bool {
    &&& a.id == b.id
    &&& a.path == b.path
    &&& a.filename == b.filename
    &&& a.is_video == b.is_video
}

/// Sets the status of the file `file_id` and each of its result, duration and
/// error that is given; does nothing for an id that names no queued file.
pub fn update_file_status(
    state: &mut AppState,
    file_id: &str,
    status: FileStatus,
    result: Option<String>,
    duration_ms: Option<u64>,
    error: Option<String>,
)
    ensures
        match file_index(old(state).queued_files@, file_id@) {
            Some(i) => final(state).queued_files@ == old(state).queued_files@.update(
                i,
                updated_entry(old(state).queued_files@[i], status, result, duration_ms, error),
            ),
            None => final(state).queued_files == old(state).queued_files,
        },
        final(state).path_style == old(state).path_style,
        final(state).models == old(state).models,
        final(state).ffmpeg == old(state).ffmpeg,
        final(state).transcription == old(state).transcription,
        final(state).selected_model == old(state).selected_model,
        final(state).selected_language == old(state).selected_language,
{
    let i = match find_file(&state.queued_files, file_id) {
        Some(i) => i,
        None => {
            return;
        },
    };
    let old_entry = &state.queued_files[i];
    let entry = QueuedFile {
        id: old_entry.id.clone(),
        path: old_entry.path.clone(),
        filename: old_entry.filename.clone(),
        is_video: old_entry.is_video,
        status,
        result: if result.is_some() {
            result
        } else {
            crate::text::clone_opt(&old_entry.result)
        },
        duration_ms: if duration_ms.is_some() {
            duration_ms
        } else {
            old_entry.duration_ms
        },
        error: if error.is_some() {
            error
        } else {
            crate::text::clone_opt(&old_entry.error)
        },
    };
    state.queued_files.set(i, entry);
}


// ── Transcription ───────────────────────────────────────────────

/// What a transcription of a queued file needs: the file, the selected model
/// with the path of its file and its engine, and the language.
#[derive(Debug)]
pub struct TranscriptionJob {
    pub path: String,
    pub filename: String,
    pub model_id: String,
    pub model_path: String,
    pub engine: EngineType,
    pub language: String,
}

/// The message for a transcription of an id that names no queued file.
pub open spec fn not_in_queue_message() -> Seq<char> {
    "Файл не найден в очереди"@
}

/// The message for a transcription asked with no model selected.
pub open spec fn no_model_message() -> Seq<char> {
    "Модель не выбрана"@
}

/// A `TranscriptionJob` as mathematical values.
pub struct TranscriptionJobView {
    pub path: Seq<char>,
    pub filename: Seq<char>,
    pub model_id: Seq<char>,
    pub model_path: Seq<char>,
    pub engine: EngineType,
    pub language: Seq<char>,
}

impl View for TranscriptionJob {
    type V = TranscriptionJobView;

    open spec fn view(&self) -> TranscriptionJobView {
        TranscriptionJobView {
            path: self.path@,
            filename: self.filename@,
            model_id: self.model_id@,
            model_path: self.model_path@,
            engine: self.engine,
            language: self.language@,
        }
    }
}

/// The transcription of the queued file `file_id` in `state`, or the reason it
/// cannot start: the file is not queued, no model is selected, or the selected
/// model is not downloaded.
pub open spec fn prepare_spec(state: AppState, file_id: Seq<char>) -> Result<TranscriptionJobView, Seq<char>> {
    match file_index(state.queued_files@, file_id) {
        None => Err(not_in_queue_message()),
        Some(i) => match state.selected_model {
            None => Err(no_model_message()),
            Some(m) => match registry_find(m@) {
                None => Err(not_downloaded_message()),
                Some(d) => match model_path_spec(state.models@, d) {
                    None => Err(not_downloaded_message()),
                    Some(p) => Ok(
                        TranscriptionJobView {
                            path: state.queued_files@[i].path@,
                            filename: state.queued_files@[i].filename@,
                            model_id: m@,
                            model_path: p,
                            engine: d.engine,
                            language: state.selected_language@,
                        },
                    ),
                },
            },
        },
    }
}

/// Gathers what the transcription of the queued file `file_id` needs, or the
/// reason it cannot start (see `prepare_spec`).
pub fn prepare_transcription(state: &AppState, file_id: &str) -> (res: Result<TranscriptionJob, String>)
    ensures
        match res {
            Ok(job) => prepare_spec(*state, file_id@) == Ok::<TranscriptionJobView, Seq<char>>(job@),
            Err(e) => prepare_spec(*state, file_id@) == Err::<TranscriptionJobView, Seq<char>>(e@),
        },
{
    let i = match find_file(&state.queued_files, file_id) {
        Some(i) => i,
        None => {
            return Err("Файл не найден в очереди".to_owned());
        },
    };
    let path = state.queued_files[i].path.clone();
    let filename = state.queued_files[i].filename.clone();
    let model_id = match &state.selected_model {
        Some(m) => m.clone(),
        None => {
            return Err("Модель не выбрана".to_owned());
        },
    };
    let language = state.selected_language.clone();
    let model_path = match state.models.get_model_path_by_id(model_id.as_str()) {
        Some(p) => p,
        None => {
            return Err("Модель не скачана".to_owned());
        },
    };
    let engine = match state.models.get_engine_type(model_id.as_str()) {
        Some(e) => e,
        None => {
            return Err("Тип движка не найден".to_owned());
        },
    };
    Ok(TranscriptionJob { path, filename, model_id, model_path, engine, language })
}

/// Which decoder reads a file.
#[derive(Clone, Copy, Debug, PartialEq, Eq, Structural)]
pub enum DecodeRoute {
    Native,
    Ffmpeg,
}

/// The decoder for the file at `path`: the built-in one when it reads the
/// file's extension, FFmpeg otherwise.
pub open spec fn decode_route_spec(style: PathStyle, path: Seq<char>) -> DecodeRoute {
    if native_extension_list().contains(unicode_lowercase(lower_extension(style, path))) {
        DecodeRoute::Native
    } else {
        DecodeRoute::Ffmpeg
    }
}

/// A file whose (lower-cased) format only FFmpeg reads goes to FFmpeg, one
/// whose format the built-in decoder reads stays with it, and a file of any
/// other format goes to FFmpeg too.
pub proof fn lemma_decode_route_by_format(style: PathStyle, path: Seq<char>)
    ensures
        ffmpeg_extension_list().contains(unicode_lowercase(lower_extension(style, path))) ==> decode_route_spec(
            style,
            path,
        ) == DecodeRoute::Ffmpeg,
        native_extension_list().contains(unicode_lowercase(lower_extension(style, path))) ==> decode_route_spec(
            style,
            path,
        ) == DecodeRoute::Native,
        !native_extension_list().contains(unicode_lowercase(lower_extension(style, path))) ==> decode_route_spec(
            style,
            path,
        ) == DecodeRoute::Ffmpeg,
{
    lemma_queue_extensions_partition();
}

/// The decoder for the file at `path` (see `decode_route_spec`).
pub fn decode_route(style: PathStyle, path: &str) -> (res: DecodeRoute)
    ensures
        res == decode_route_spec(style, path@),
{
    let ext = lower_extension_of(style, path);
    if is_native_supported(ext.as_str()) {
        DecodeRoute::Native
    } else {
        DecodeRoute::Ffmpeg
    }
}

/// The message for a file that only FFmpeg reads when FFmpeg is missing.
pub open spec fn no_fallback_message(style: PathStyle, path: Seq<char>) -> Seq<char> {
    let ext = match extension_spec(style, path) {
        Some(e) => e,
        None => "?"@,
    };
    "Формат "@ + ext + " не поддерживается нативно, а FFmpeg не найден. Установите: brew install ffmpeg"@
}

/// Whether the FFmpeg fallback can convert the file at `path`: the message
/// when FFmpeg is missing.
pub fn ffmpeg_fallback_check(ffmpeg: &FfmpegManager, style: PathStyle, path: &str) -> (res: Result<(), String>)
    ensures
        res is Ok <==> ffmpeg@ is Some,
        res matches Err(e) ==> e@ == no_fallback_message(style, path@),
{
    if ffmpeg.is_available() {
        return Ok(());
    }
    let ext = match crate::text::extension(style, path) {
        Some(e) => e,
        None => "?".to_owned(),
    };
    let mut msg = "Формат ".to_owned();
    msg.append(ext.as_str());
    msg.append(" не поддерживается нативно, а FFmpeg не найден. Установите: brew install ffmpeg");
    Err(msg)
}

} // verus!
