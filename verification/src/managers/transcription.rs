use vstd::prelude::*;

use crate::text::{opt_view, trim_spec};

verus! {

/// What a transcription gave: its text and how long it took.
#[derive(Debug)]
pub struct TranscriptionResult {
    pub text: String,
    pub duration_ms: u64,
}

/// Which model's engine is loaded, if any.
#[derive(Debug)]
pub struct TranscriptionManager {
    loaded: Option<String>,
}

impl View for TranscriptionManager {
    type V = Option<Seq<char>>;

    closed spec fn view(&self) -> Option<Seq<char>> {
        opt_view(self.loaded)
    }
}

/// The message for a transcription asked with no model loaded.
pub open spec fn not_loaded_message() -> Seq<char> {
    "Модель не загружена"@
}

impl TranscriptionManager {
    /// A manager with no model loaded.
    pub fn new() -> (res: TranscriptionManager)
        ensures
            res@ is None,
    {
        TranscriptionManager { loaded: None }
    }

    /// Whether loading the model `model_id` has anything to do: not when that
    /// model is the one loaded.
    pub fn needs_load(&self, model_id: &str) -> (res: bool)
        ensures
            res == (self@ != Some(model_id@)),
    {
        match &self.loaded {
            Some(id) => !crate::text::eq_str(id.as_str(), model_id),
            None => true,
        }
    }

    /// Records that the engine of the model `model_id` is now the loaded one.
    pub fn record_loaded(&mut self, model_id: &str)
        ensures
            final(self)@ == Some(model_id@),
            final(self)@ == apply_op(old(self)@, LoadOp::Load(model_id@)),
    {
        self.loaded = Some(model_id.to_owned());
    }

    /// Forgets the loaded model and returns its id.
    pub fn unload_model(&mut self) -> (res: Option<String>)
        ensures
            final(self)@ is None,
            final(self)@ == apply_op(old(self)@, LoadOp::Unload),
            opt_view(res) == old(self)@,
    {
        let res = crate::text::clone_opt(&self.loaded);
        self.loaded = None;
        res
    }

    /// Whether the loaded model is due to be unloaded after `idle_ms`
    /// milliseconds without use, under a timeout of `timeout_minutes`
    /// minutes: only when a model is loaded and the timeout, which zero
    /// turns off, has run out.
    pub fn idle_unload_due(&self, idle_ms: u64, timeout_minutes: u32) -> (res: bool)
        ensures
            res == (self@ is Some && timeout_minutes > 0 && idle_ms >= timeout_minutes * 60_000),
    {
        let limit: u64 = timeout_minutes as u64 * 60_000;
        self.loaded.is_some() && timeout_minutes > 0 && idle_ms >= limit
    }

    /// Whether a model is loaded.
    pub fn is_loaded(&self) -> (res: bool)
        ensures
            res == self@ is Some,
    {
        self.loaded.is_some()
    }

    /// The id of the loaded model.
    pub fn loaded_model_id(&self) -> (res: Option<String>)
        ensures
            opt_view(res) == self@,
    {
        crate::text::clone_opt(&self.loaded)
    }

    /// Whether a transcription may run: the message when no model is loaded.
    pub fn ready(&self) -> (res: Result<(), String>)
        ensures
            res is Ok <==> self@ is Some,
            res matches Err(e) ==> e@ == not_loaded_message(),
    {
        if self.loaded.is_some() {
            Ok(())
        } else {
            Err("Модель не загружена".to_owned())
        }
    }
}

/// What is done to the record of the loaded model.
pub enum LoadOp {
    /// The engine of this model was loaded.
    Load(Seq<char>),
    /// The loaded engine was dropped.
    Unload,
}

/// The loaded model after `op`.
pub open spec fn apply_op(loaded: Option<Seq<char>>, op: LoadOp) -> Option<Seq<char>> {
    match op {
        LoadOp::Load(id) => Some(id),
        LoadOp::Unload => None,
    }
}

/// The loaded model after the operations `ops`, in order, from `start`.
pub open spec fn replay(start: Option<Seq<char>>, ops: Seq<LoadOp>) -> Option<Seq<char>>
    decreases ops.len(),
{
    if ops.len() == 0 {
        start
    } else {
        apply_op(replay(start, ops.drop_last()), ops.last())
    }
}

/// From a fresh manager, the loaded model is the one of the last load when no
/// unload came after it, and none otherwise; unloading twice is unloading
/// once, and loading the loaded model changes nothing.
pub proof fn lemma_load_history(ops: Seq<LoadOp>, loaded: Option<Seq<char>>, id: Seq<char>)
    ensures
        replay(None, ops) == Some(id) <==> exists|i: int|
            0 <= i < ops.len() && ops[i] == LoadOp::Load(id) && forall|j: int| i < j < ops.len() ==> ops[j] == LoadOp::Load(id),
        replay(None, ops) is None <==> (ops.len() == 0 || ops.last() == LoadOp::Unload),
        apply_op(apply_op(loaded, LoadOp::Unload), LoadOp::Unload) == apply_op(loaded, LoadOp::Unload),
        apply_op(Some(id), LoadOp::Load(id)) == Some(id),
{
    if ops.len() > 0 {
        let n = ops.len() - 1;
        if replay(None, ops) == Some(id) {
            assert(ops[n] == LoadOp::Load(id));
        }
        if exists|i: int|
            0 <= i < ops.len() && ops[i] == LoadOp::Load(id) && forall|j: int| i < j < ops.len() ==> ops[j] == LoadOp::Load(id) {
            let i = choose|i: int|
                0 <= i < ops.len() && ops[i] == LoadOp::Load(id) && forall|j: int| i < j < ops.len() ==> ops[j] == LoadOp::Load(id);
            if i < n {
                assert(ops[n] == LoadOp::Load(id));
            }
        }
    }
}

/// The result of a transcription whose engine returned `raw_text` after
/// `duration_ms`: the text without surrounding whitespace.
pub fn make_result(raw_text: &str, duration_ms: u64) -> (res: TranscriptionResult)
    ensures
        res.text@ == trim_spec(raw_text@),
        res.duration_ms == duration_ms,
{
    TranscriptionResult { text: crate::text::trim(raw_text), duration_ms }
}

} // verus!
