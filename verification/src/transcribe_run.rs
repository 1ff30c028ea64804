use vstd::prelude::*;

use crate::commands::{
    decode_route,
    decode_route_spec,
    ffmpeg_fallback_check,
    file_index,
    no_fallback_message,
    prepare_spec,
    prepare_transcription,
    same_file,
    update_file_status,
    DecodeRoute,
    TranscriptionJob,
    TranscriptionJobView,
};
use crate::managers::transcription::make_result;
use crate::managers::{AppState, FileStatus, QueuedFile};
use crate::text::{opt_view, trim_spec, PathStyle};

verus! {

// The transcription of a queued file alternates outside work (decoding,
// loading an engine, running it) with decisions. The decisions live here, as a
// step from the run's phase and what the outside work reported to the next
// phase and the next piece of work; the caller performs the work.

/// Where a transcription run stands.
#[derive(Debug, PartialEq, Eq)]
pub enum RunPhase {
    /// Reading the audio, with the built-in decoder or through FFmpeg.
    Decoding(DecodeRoute),
    /// Loading the engine of the selected model.
    LoadingModel,
    /// Running the engine over the audio.
    Transcribing,
    /// Finished with a text.
    Completed,
    /// Finished with the reason why not.
    Failed(String),
}

/// A `RunPhase` as mathematical values.
pub enum RunPhaseView {
    Decoding(DecodeRoute),
    LoadingModel,
    Transcribing,
    Completed,
    Failed(Seq<char>),
}

impl View for RunPhase {
    type V = RunPhaseView;

    open spec fn view(&self) -> RunPhaseView {
        match self {
            RunPhase::Decoding(r) => RunPhaseView::Decoding(*r),
            RunPhase::LoadingModel => RunPhaseView::LoadingModel,
            RunPhase::Transcribing => RunPhaseView::Transcribing,
            RunPhase::Completed => RunPhaseView::Completed,
            RunPhase::Failed(m) => RunPhaseView::Failed(m@),
        }
    }
}

/// What the outside work of a run reported.
#[derive(Debug)]
pub enum RunEvent {
    /// The audio was read.
    Decoded,
    /// Reading the audio failed, with the reason.
    DecodeFailed(String),
    /// The engine of the job's model is loaded.
    ModelLoaded,
    /// Loading the engine failed, with the reason.
    LoadFailed(String),
    /// The engine returned this text after this many milliseconds.
    Transcribed(String, u64),
    /// Running the engine failed, with the reason.
    TranscribeFailed(String),
}

/// A `RunEvent` as mathematical values.
pub enum RunEventView {
    Decoded,
    DecodeFailed(Seq<char>),
    ModelLoaded,
    LoadFailed(Seq<char>),
    Transcribed(Seq<char>, u64),
    TranscribeFailed(Seq<char>),
}

impl View for RunEvent {
    type V = RunEventView;

    open spec fn view(&self) -> RunEventView {
        match self {
            RunEvent::Decoded => RunEventView::Decoded,
            RunEvent::DecodeFailed(m) => RunEventView::DecodeFailed(m@),
            RunEvent::ModelLoaded => RunEventView::ModelLoaded,
            RunEvent::LoadFailed(m) => RunEventView::LoadFailed(m@),
            RunEvent::Transcribed(t, d) => RunEventView::Transcribed(t@, *d),
            RunEvent::TranscribeFailed(m) => RunEventView::TranscribeFailed(m@),
        }
    }
}

/// The outside work that a run asks for next.
#[derive(Debug, PartialEq, Eq)]
pub enum RunAction {
    /// Read the audio with the built-in decoder.
    DecodeNative,
    /// Convert the file with FFmpeg and read the result (a missing FFmpeg is
    /// reported as a failed conversion).
    DecodeWithFfmpeg,
    /// Load the engine of the job's model, unless it is the loaded one.
    LoadModel,
    /// Run the loaded engine over the audio.
    Transcribe,
    /// Nothing more: the run is over, with this outcome.
    Finish(Result<(), String>),
}

/// A `RunAction` as mathematical values.
pub enum RunActionView {
    DecodeNative,
    DecodeWithFfmpeg,
    LoadModel,
    Transcribe,
    Finish(Result<(), Seq<char>>),
}

impl View for RunAction {
    type V = RunActionView;

    open spec fn view(&self) -> RunActionView {
        match self {
            RunAction::DecodeNative => RunActionView::DecodeNative,
            RunAction::DecodeWithFfmpeg => RunActionView::DecodeWithFfmpeg,
            RunAction::LoadModel => RunActionView::LoadModel,
            RunAction::Transcribe => RunActionView::Transcribe,
            RunAction::Finish(Ok(())) => RunActionView::Finish(Ok(())),
            RunAction::Finish(Err(m)) => RunActionView::Finish(Err(m@)),
        }
    }
}

/// A transcription of the queued file `file_id` under way.
#[derive(Debug)]
pub struct TranscriptionRun {
    pub file_id: String,
    pub job: TranscriptionJob,
    pub phase: RunPhase,
}

/// What a run records on its queued file: the new status, and the result,
/// duration and error that it sets (each left as it was when not given).
pub struct StatusChange {
    pub status: FileStatus,
    pub result: Option<Seq<char>>,
    pub duration_ms: Option<u64>,
    pub error: Option<Seq<char>>,
}

/// The change that only sets the status.
pub open spec fn status_only(status: FileStatus) -> StatusChange {
    StatusChange { status, result: None, duration_ms: None, error: None }
}

/// The change that marks a failure with its reason.
pub open spec fn failure(reason: Seq<char>) -> StatusChange {
    StatusChange { status: FileStatus::Error, result: None, duration_ms: None, error: Some(reason) }
}

/// Whether `after` is `before` with the change `c`.
pub open spec fn entry_changed(before: QueuedFile, after: QueuedFile, c: StatusChange) -> bool {
    &&& same_file(after, before)
    &&& after.status == c.status
    &&& opt_view(after.result) == (if c.result is Some {
        c.result
    } else {
        opt_view(before.result)
    })
    &&& after.duration_ms == (if c.duration_ms is Some {
        c.duration_ms
    } else {
        before.duration_ms
    })
    &&& opt_view(after.error) == (if c.error is Some {
        c.error
    } else {
        opt_view(before.error)
    })
}

/// Whether the queue `after` is `before` with the change `change` made to the
/// file `id`: the same queue when there is no change or no such file.
pub open spec fn queue_changed(
    before: Seq<QueuedFile>,
    after: Seq<QueuedFile>,
    id: Seq<char>,
    change: Option<StatusChange>,
) -> bool {
    match change {
        Some(c) => match file_index(before, id) {
            Some(i) => {
                &&& after.len() == before.len()
                &&& entry_changed(before[i], after[i], c)
                &&& forall|k: int| 0 <= k < before.len() && k != i ==> after[k] == before[k]
            },
            None => after == before,
        },
        None => after == before,
    }
}

/// The work that a run in `phase` waits for.
pub open spec fn pending_action(phase: RunPhaseView) -> RunActionView {
    match phase {
        RunPhaseView::Decoding(DecodeRoute::Native) => RunActionView::DecodeNative,
        RunPhaseView::Decoding(DecodeRoute::Ffmpeg) => RunActionView::DecodeWithFfmpeg,
        RunPhaseView::LoadingModel => RunActionView::LoadModel,
        RunPhaseView::Transcribing => RunActionView::Transcribe,
        RunPhaseView::Completed => RunActionView::Finish(Ok(())),
        RunPhaseView::Failed(m) => RunActionView::Finish(Err(m)),
    }
}

/// Where FFmpeg takes over a file: converting it when FFmpeg was found, and
/// failing with the message that it is missing when not.
pub open spec fn ffmpeg_phase(ffmpeg_found: bool, style: PathStyle, path: Seq<char>) -> RunPhaseView {
    if ffmpeg_found {
        RunPhaseView::Decoding(DecodeRoute::Ffmpeg)
    } else {
        RunPhaseView::Failed(no_fallback_message(style, path))
    }
}

/// The phase in which a run of the file at `path` starts: decoding with the
/// decoder that reads it (see `decode_route_spec`).
pub open spec fn start_phase(style: PathStyle, path: Seq<char>) -> RunPhaseView {
    RunPhaseView::Decoding(decode_route_spec(style, path))
}

/// The phase that `event` leads a run in `phase` to. A native decoder that
/// fails hands the file to FFmpeg; a conversion that fails while FFmpeg is
/// missing ends the run with the message that it is missing; any other
/// failure ends the run with its reason; an event that the phase does not
/// wait for changes nothing.
pub open spec fn next_phase(
    phase: RunPhaseView,
    event: RunEventView,
    ffmpeg_found: bool,
    style: PathStyle,
    path: Seq<char>,
) -> RunPhaseView {
    match phase {
        RunPhaseView::Decoding(route) => match event {
            RunEventView::Decoded => RunPhaseView::LoadingModel,
            RunEventView::DecodeFailed(m) => if route == DecodeRoute::Native || !ffmpeg_found {
                ffmpeg_phase(ffmpeg_found, style, path)
            } else {
                RunPhaseView::Failed(m)
            },
            _ => phase,
        },
        RunPhaseView::LoadingModel => match event {
            RunEventView::ModelLoaded => RunPhaseView::Transcribing,
            RunEventView::LoadFailed(m) => RunPhaseView::Failed(m),
            _ => phase,
        },
        RunPhaseView::Transcribing => match event {
            RunEventView::Transcribed(_, _) => RunPhaseView::Completed,
            RunEventView::TranscribeFailed(m) => RunPhaseView::Failed(m),
            _ => phase,
        },
        _ => phase,
    }
}

/// What a step records on the queued file: transcribing once the audio is
/// read, the trimmed text and the duration on completion, the reason on
/// failure, nothing otherwise.
pub open spec fn step_change(
    phase: RunPhaseView,
    event: RunEventView,
    ffmpeg_found: bool,
    style: PathStyle,
    path: Seq<char>,
) -> Option<StatusChange> {
    let next = next_phase(phase, event, ffmpeg_found, style, path);
    if next == phase {
        None
    } else {
        match next {
            RunPhaseView::LoadingModel => Some(status_only(FileStatus::Transcribing)),
            RunPhaseView::Completed => match event {
                RunEventView::Transcribed(text, d) => Some(
                    StatusChange {
                        status: FileStatus::Completed,
                        result: Some(trim_spec(text)),
                        duration_ms: Some(d),
                        error: None,
                    },
                ),
                _ => None,
            },
            RunPhaseView::Failed(m) => Some(failure(m)),
            _ => None,
        }
    }
}

/// Whether a step of a run in `phase` on `event` records the job's model as
/// the loaded one.
pub open spec fn step_loads(phase: RunPhaseView, event: RunEventView) -> bool {
    phase == RunPhaseView::LoadingModel && event == RunEventView::ModelLoaded
}

/// Whether `after` differs from `before` in the queue and the loaded model at
/// most.
pub open spec fn rest_kept(before: AppState, after: AppState) -> bool {
    &&& after.path_style == before.path_style
    &&& after.models == before.models
    &&& after.ffmpeg == before.ffmpeg
    &&& after.selected_model == before.selected_model
    &&& after.selected_language == before.selected_language
}

/// How far a run in `phase` has come: the native decoder, then FFmpeg, then
/// loading, then transcribing, then the end.
pub open spec fn phase_rank(phase: RunPhaseView) -> int {
    match phase {
        RunPhaseView::Decoding(DecodeRoute::Native) => 0,
        RunPhaseView::Decoding(DecodeRoute::Ffmpeg) => 1,
        RunPhaseView::LoadingModel => 2,
        RunPhaseView::Transcribing => 3,
        RunPhaseView::Completed => 4,
        RunPhaseView::Failed(_) => 4,
    }
}

/// What each outcome does to a run that waits for it. Audio that was read,
/// by either decoder, leads to loading the model and marks the file
/// transcribing. A native decoder that fails hands the file to FFmpeg when
/// FFmpeg was found, and changes nothing on the file. Any decoding failure
/// while FFmpeg is missing ends the run with the message that it is missing;
/// a failed conversion, load or transcription with FFmpeg at hand ends it with
/// its own reason; either way the file is marked failed with that message. A
/// loaded model leads to transcribing and is recorded as the loaded one, and
/// a text ends the run completed, with the text trimmed and the duration kept.
pub proof fn lemma_run_transitions(
    route: DecodeRoute,
    ffmpeg_found: bool,
    style: PathStyle,
    path: Seq<char>,
    reason: Seq<char>,
    text: Seq<char>,
    duration_ms: u64,
)
    ensures
        next_phase(RunPhaseView::Decoding(route), RunEventView::Decoded, ffmpeg_found, style, path)
            == RunPhaseView::LoadingModel,
        pending_action(RunPhaseView::LoadingModel) == RunActionView::LoadModel,
        step_change(RunPhaseView::Decoding(route), RunEventView::Decoded, ffmpeg_found, style, path) == Some(
            StatusChange { status: FileStatus::Transcribing, result: None, duration_ms: None, error: None },
        ),
        next_phase(
            RunPhaseView::Decoding(DecodeRoute::Native),
            RunEventView::DecodeFailed(reason),
            true,
            style,
            path,
        ) == RunPhaseView::Decoding(DecodeRoute::Ffmpeg),
        pending_action(RunPhaseView::Decoding(DecodeRoute::Ffmpeg)) == RunActionView::DecodeWithFfmpeg,
        pending_action(RunPhaseView::Decoding(DecodeRoute::Native)) == RunActionView::DecodeNative,
        step_change(
            RunPhaseView::Decoding(DecodeRoute::Native),
            RunEventView::DecodeFailed(reason),
            true,
            style,
            path,
        ) is None,
        next_phase(RunPhaseView::Decoding(route), RunEventView::DecodeFailed(reason), false, style, path)
            == RunPhaseView::Failed(no_fallback_message(style, path)),
        step_change(RunPhaseView::Decoding(route), RunEventView::DecodeFailed(reason), false, style, path) == Some(
            StatusChange {
                status: FileStatus::Error,
                result: None,
                duration_ms: None,
                error: Some(no_fallback_message(style, path)),
            },
        ),
        next_phase(
            RunPhaseView::Decoding(DecodeRoute::Ffmpeg),
            RunEventView::DecodeFailed(reason),
            true,
            style,
            path,
        ) == RunPhaseView::Failed(reason),
        step_change(
            RunPhaseView::Decoding(DecodeRoute::Ffmpeg),
            RunEventView::DecodeFailed(reason),
            true,
            style,
            path,
        ) == Some(StatusChange { status: FileStatus::Error, result: None, duration_ms: None, error: Some(reason) }),
        next_phase(RunPhaseView::LoadingModel, RunEventView::ModelLoaded, ffmpeg_found, style, path)
            == RunPhaseView::Transcribing,
        pending_action(RunPhaseView::Transcribing) == RunActionView::Transcribe,
        step_change(RunPhaseView::LoadingModel, RunEventView::ModelLoaded, ffmpeg_found, style, path) is None,
        step_loads(RunPhaseView::LoadingModel, RunEventView::ModelLoaded),
        next_phase(RunPhaseView::LoadingModel, RunEventView::LoadFailed(reason), ffmpeg_found, style, path)
            == RunPhaseView::Failed(reason),
        step_change(RunPhaseView::LoadingModel, RunEventView::LoadFailed(reason), ffmpeg_found, style, path) == Some(
            StatusChange { status: FileStatus::Error, result: None, duration_ms: None, error: Some(reason) },
        ),
        next_phase(
            RunPhaseView::Transcribing,
            RunEventView::Transcribed(text, duration_ms),
            ffmpeg_found,
            style,
            path,
        ) == RunPhaseView::Completed,
        pending_action(RunPhaseView::Completed) == RunActionView::Finish(Ok(())),
        step_change(
            RunPhaseView::Transcribing,
            RunEventView::Transcribed(text, duration_ms),
            ffmpeg_found,
            style,
            path,
        ) == Some(
            StatusChange {
                status: FileStatus::Completed,
                result: Some(trim_spec(text)),
                duration_ms: Some(duration_ms),
                error: None,
            },
        ),
        next_phase(RunPhaseView::Transcribing, RunEventView::TranscribeFailed(reason), ffmpeg_found, style, path)
            == RunPhaseView::Failed(reason),
        step_change(
            RunPhaseView::Transcribing,
            RunEventView::TranscribeFailed(reason),
            ffmpeg_found,
            style,
            path,
        ) == Some(StatusChange { status: FileStatus::Error, result: None, duration_ms: None, error: Some(reason) }),
        pending_action(RunPhaseView::Failed(reason)) == RunActionView::Finish(Err(reason)),
        !step_loads(RunPhaseView::Decoding(route), RunEventView::Decoded),
{
}

/// A run never goes back: each step leaves it where it is or takes it
/// further, a finished run stays as it is, and a step that records anything
/// on the file is one that moved the run.
pub proof fn lemma_run_progress(
    phase: RunPhaseView,
    event: RunEventView,
    ffmpeg_found: bool,
    style: PathStyle,
    path: Seq<char>,
)
    ensures
        ({
            let next = next_phase(phase, event, ffmpeg_found, style, path);
            &&& next == phase || phase_rank(next) > phase_rank(phase)
            &&& phase_rank(phase) == 4 ==> next == phase
            &&& step_change(phase, event, ffmpeg_found, style, path) is Some ==> next != phase
        }),
{
}

fn change_status(
    state: &mut AppState,
    file_id: &str,
    status: FileStatus,
    result: Option<String>,
    duration_ms: Option<u64>,
    error: Option<String>,
)
    ensures
        queue_changed(
            old(state).queued_files@,
            final(state).queued_files@,
            file_id@,
            Some(StatusChange { status, result: opt_view(result), duration_ms, error: opt_view(error) }),
        ),
        rest_kept(*old(state), *final(state)),
        final(state).transcription == old(state).transcription,
{
    update_file_status(state, file_id, status, result, duration_ms, error);
}

fn fail(state: &mut AppState, file_id: &str, reason: String) -> (res: RunPhase)
    ensures
        res@ == RunPhaseView::Failed(reason@),
        queue_changed(old(state).queued_files@, final(state).queued_files@, file_id@, Some(failure(reason@))),
        rest_kept(*old(state), *final(state)),
        final(state).transcription == old(state).transcription,
{
    change_status(state, file_id, FileStatus::Error, None, None, Some(reason.clone()));
    RunPhase::Failed(reason)
}

/// The work that a run in `phase` waits for (see `pending_action`).
pub fn action_for(phase: &RunPhase) -> (res: RunAction)
    ensures
        res@ == pending_action(phase@),
{
    match phase {
        RunPhase::Decoding(DecodeRoute::Native) => RunAction::DecodeNative,
        RunPhase::Decoding(DecodeRoute::Ffmpeg) => RunAction::DecodeWithFfmpeg,
        RunPhase::LoadingModel => RunAction::LoadModel,
        RunPhase::Transcribing => RunAction::Transcribe,
        RunPhase::Completed => RunAction::Finish(Ok(())),
        RunPhase::Failed(m) => RunAction::Finish(Err(m.clone())),
    }
}

/// Starts the transcription of the queued file `file_id`: refused, with the
/// state left alone, when it cannot start (see `prepare_spec`); otherwise the
/// file is marked converting and the run asks for the decoder that reads it
/// (FFmpeg for the formats that only FFmpeg reads, whether or not it was
/// found: a missing FFmpeg is reported back as a failed conversion).
pub fn start_run(state: &mut AppState, file_id: &str) -> (res: Result<(TranscriptionRun, RunAction), String>)
    ensures
        match prepare_spec(*old(state), file_id@) {
            Err(m) => res matches Err(e) && e@ == m && *final(state) == *old(state),
            Ok(job) => res matches Ok(r) && {
                let (run, action) = r;
                &&& run.file_id@ == file_id@
                &&& run.job@ == job
                &&& run.phase@ == start_phase(old(state).path_style, job.path)
                &&& action@ == pending_action(run.phase@)
                &&& queue_changed(
                    old(state).queued_files@,
                    final(state).queued_files@,
                    file_id@,
                    Some(status_only(FileStatus::Converting)),
                )
                &&& rest_kept(*old(state), *final(state))
                &&& final(state).transcription == old(state).transcription
            },
        },
{
    let job = match prepare_transcription(state, file_id) {
        Ok(j) => j,
        Err(e) => {
            return Err(e);
        },
    };
    change_status(state, file_id, FileStatus::Converting, None, None, None);
    let phase = RunPhase::Decoding(decode_route(state.path_style, job.path.as_str()));
    let action = action_for(&phase);
    Ok((TranscriptionRun { file_id: file_id.to_owned(), job, phase }, action))
}

/// Takes a run one step on from what its outside work reported: moves it to
/// the next phase (see `next_phase`), records on its queued file what the step
/// changes (see `step_change`), records the job's model as loaded once its
/// engine is, and returns the work that the run waits for next.
pub fn step_run(state: &mut AppState, run: &mut TranscriptionRun, event: RunEvent) -> (action: RunAction)
    ensures
        final(run).file_id == old(run).file_id,
        final(run).job == old(run).job,
        final(run).phase@ == next_phase(
            old(run).phase@,
            event@,
            old(state).ffmpeg@ is Some,
            old(state).path_style,
            old(run).job.path@,
        ),
        action@ == pending_action(final(run).phase@),
        queue_changed(
            old(state).queued_files@,
            final(state).queued_files@,
            old(run).file_id@,
            step_change(
                old(run).phase@,
                event@,
                old(state).ffmpeg@ is Some,
                old(state).path_style,
                old(run).job.path@,
            ),
        ),
        final(state).transcription@ == (if step_loads(old(run).phase@, event@) {
            Some(old(run).job.model_id@)
        } else {
            old(state).transcription@
        }),
        rest_kept(*old(state), *final(state)),
        old(run).phase@ is Decoding && event@ == RunEventView::Decoded ==> {
            &&& final(run).phase@ == RunPhaseView::LoadingModel
            &&& action@ == RunActionView::LoadModel
            &&& queue_changed(
                old(state).queued_files@,
                final(state).queued_files@,
                old(run).file_id@,
                Some(StatusChange { status: FileStatus::Transcribing, result: None, duration_ms: None, error: None }),
            )
        },
{
    let ghost p0 = run.phase@;
    let ghost e0 = event@;
    let next: Option<RunPhase> = match event {
        RunEvent::Decoded => {
            if matches!(run.phase, RunPhase::Decoding(_)) {
                change_status(state, run.file_id.as_str(), FileStatus::Transcribing, None, None, None);
                Some(RunPhase::LoadingModel)
            } else {
                None
            }
        },
        RunEvent::DecodeFailed(m) => {
            if matches!(run.phase, RunPhase::Decoding(DecodeRoute::Native)) {
                match ffmpeg_fallback_check(&state.ffmpeg, state.path_style, run.job.path.as_str()) {
                    Ok(()) => Some(RunPhase::Decoding(DecodeRoute::Ffmpeg)),
                    Err(msg) => Some(fail(state, run.file_id.as_str(), msg)),
                }
            } else if matches!(run.phase, RunPhase::Decoding(DecodeRoute::Ffmpeg)) {
                match ffmpeg_fallback_check(&state.ffmpeg, state.path_style, run.job.path.as_str()) {
                    Ok(()) => Some(fail(state, run.file_id.as_str(), m)),
                    Err(msg) => Some(fail(state, run.file_id.as_str(), msg)),
                }
            } else {
                None
            }
        },
        RunEvent::ModelLoaded => {
            if matches!(run.phase, RunPhase::LoadingModel) {
                state.transcription.record_loaded(run.job.model_id.as_str());
                Some(RunPhase::Transcribing)
            } else {
                None
            }
        },
        RunEvent::LoadFailed(m) => {
            if matches!(run.phase, RunPhase::LoadingModel) {
                Some(fail(state, run.file_id.as_str(), m))
            } else {
                None
            }
        },
        RunEvent::Transcribed(text, duration_ms) => {
            if matches!(run.phase, RunPhase::Transcribing) {
                let r = make_result(text.as_str(), duration_ms);
                change_status(state, run.file_id.as_str(), FileStatus::Completed, Some(r.text), Some(r.duration_ms), None);
                Some(RunPhase::Completed)
            } else {
                None
            }
        },
        RunEvent::TranscribeFailed(m) => {
            if matches!(run.phase, RunPhase::Transcribing) {
                Some(fail(state, run.file_id.as_str(), m))
            } else {
                None
            }
        },
    };
    match next {
        Some(p) => {
            run.phase = p;
        },
        None => {},
    }
    action_for(&run.phase)
}

} // verus!
