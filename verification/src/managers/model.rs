use vstd::prelude::*;

use crate::text::{eq_str, file_name_spec, is_plain_component, is_sep, join_spec, opt_view, path_join, strings_view, PathStyle};

verus! {

/// The speech engine that runs a model.
#[derive(Clone, Copy, Debug, PartialEq, Eq, Structural)]
pub enum EngineType {
    Whisper,
    GigaAM,
}

/// A model that the application offers.
#[derive(Debug)]
pub struct ModelDef {
    pub id: String,
    pub name: String,
    pub description: String,
    pub filename: String,
    pub url: String,
    pub size_mb: u64,
    pub engine: EngineType,
}

/// A `ModelDef` as mathematical values.
pub struct ModelDefView {
    pub id: Seq<char>,
    pub name: Seq<char>,
    pub description: Seq<char>,
    pub filename: Seq<char>,
    pub url: Seq<char>,
    pub size_mb: u64,
    pub engine: EngineType,
}

impl View for ModelDef {
    type V = ModelDefView;

    open spec fn view(&self) -> ModelDefView {
        ModelDefView {
            id: self.id@,
            name: self.name@,
            description: self.description@,
            filename: self.filename@,
            url: self.url@,
            size_mb: self.size_mb,
            engine: self.engine,
        }
    }
}

impl ModelDef {
    /// Whether the model comes as a `tar.gz` archive to unpack into a
    /// directory of that file name, as the GigaAM models do, rather than as a
    /// single model file.
    pub fn is_archive(&self) -> (res: bool)
        ensures
            res == (self@.engine == EngineType::GigaAM),
    {
        matches!(self.engine, EngineType::GigaAM)
    }

    /// A copy of this definition.
    pub fn duplicate(&self) -> (res: ModelDef)
        ensures
            res@ == self@,
    {
        ModelDef {
            id: self.id.clone(),
            name: self.name.clone(),
            description: self.description.clone(),
            filename: self.filename.clone(),
            url: self.url.clone(),
            size_mb: self.size_mb,
            engine: self.engine,
        }
    }
}

/// The view of a model definition made of these texts, size and engine.
pub open spec fn def_view(
    id: &str,
    name: &str,
    description: &str,
    filename: &str,
    url: &str,
    size_mb: u64,
    engine: EngineType,
) -> ModelDefView {
    ModelDefView { id: id@, name: name@, description: description@, filename: filename@, url: url@, size_mb, engine }
}

/// The models on offer, in the order in which they are listed.
pub open spec fn model_registry() -> Seq<ModelDefView> {
    seq![
        def_view("whisper-tiny", "Whisper Tiny", "Самая быстрая, низкое качество (~75MB)", "ggml-tiny.bin",
            "https://huggingface.co/ggerganov/whisper.cpp/resolve/main/ggml-tiny.bin", 75, EngineType::Whisper),
        def_view("whisper-base", "Whisper Base", "Быстрая, приемлемое качество (~142MB)", "ggml-base.bin",
            "https://huggingface.co/ggerganov/whisper.cpp/resolve/main/ggml-base.bin", 142, EngineType::Whisper),
        def_view("whisper-small", "Whisper Small", "Хороший баланс скорости и качества (~466MB)", "ggml-small.bin",
            "https://huggingface.co/ggerganov/whisper.cpp/resolve/main/ggml-small.bin", 466, EngineType::Whisper),
        def_view("whisper-medium", "Whisper Medium", "Высокое качество, медленнее (~1.5GB)", "ggml-medium.bin",
            "https://huggingface.co/ggerganov/whisper.cpp/resolve/main/ggml-medium.bin", 1500, EngineType::Whisper),
        def_view("whisper-large-v3", "Whisper Large v3", "Лучшее качество, самая медленная (~3GB)", "ggml-large-v3.bin",
            "https://huggingface.co/ggerganov/whisper.cpp/resolve/main/ggml-large-v3.bin", 3000, EngineType::Whisper),
        def_view("whisper-large-v3-turbo", "Whisper Large v3 Turbo", "Качество large, скорость medium (~1.6GB)", "ggml-large-v3-turbo.bin",
            "https://huggingface.co/ggerganov/whisper.cpp/resolve/main/ggml-large-v3-turbo.bin", 1600, EngineType::Whisper),
        // GigaAM v3: Russian only, about 151 MB. Its files form a directory,
        // the layout that `transcribe_rs::onnx::gigaam::GigaAMModel::load`
        // reads (`model*.onnx` and `vocab.txt`), shipped as a `tar.gz`
        // archive from the host of the Handy model distribution, which this
        // application shares; the id, directory name and address follow that
        // distribution's naming.
        def_view("gigaam-v3", "GigaAM v3", "Только русский язык, высокая точность (~151MB)", "giga-am-v3",
            "https://blob.handy.computer/giga-am-v3.tar.gz", 151, EngineType::GigaAM),
    ]
}

/// The views of a list of definitions.
pub open spec fn defs_view(v: Seq<ModelDef>) -> Seq<ModelDefView> {
    v.map_values(|d: ModelDef| d@)
}

fn make_def(
    id: &str,
    name: &str,
    description: &str,
    filename: &str,
    url: &str,
    size_mb: u64,
    engine: EngineType,
) -> (res: ModelDef)
    ensures
        res@ == def_view(id, name, description, filename, url, size_mb, engine),
{
    ModelDef {
        id: id.to_owned(),
        name: name.to_owned(),
        description: description.to_owned(),
        filename: filename.to_owned(),
        url: url.to_owned(),
        size_mb,
        engine,
    }
}

/// The models on offer (see `model_registry`).
pub fn get_model_registry() -> (res: Vec<ModelDef>)
    ensures
        defs_view(res@) == model_registry(),
{
    let res = vec![
        make_def("whisper-tiny", "Whisper Tiny", "Самая быстрая, низкое качество (~75MB)", "ggml-tiny.bin",
            "https://huggingface.co/ggerganov/whisper.cpp/resolve/main/ggml-tiny.bin", 75, EngineType::Whisper),
        make_def("whisper-base", "Whisper Base", "Быстрая, приемлемое качество (~142MB)", "ggml-base.bin",
            "https://huggingface.co/ggerganov/whisper.cpp/resolve/main/ggml-base.bin", 142, EngineType::Whisper),
        make_def("whisper-small", "Whisper Small", "Хороший баланс скорости и качества (~466MB)", "ggml-small.bin",
            "https://huggingface.co/ggerganov/whisper.cpp/resolve/main/ggml-small.bin", 466, EngineType::Whisper),
        make_def("whisper-medium", "Whisper Medium", "Высокое качество, медленнее (~1.5GB)", "ggml-medium.bin",
            "https://huggingface.co/ggerganov/whisper.cpp/resolve/main/ggml-medium.bin", 1500, EngineType::Whisper),
        make_def("whisper-large-v3", "Whisper Large v3", "Лучшее качество, самая медленная (~3GB)", "ggml-large-v3.bin",
            "https://huggingface.co/ggerganov/whisper.cpp/resolve/main/ggml-large-v3.bin", 3000, EngineType::Whisper),
        make_def("whisper-large-v3-turbo", "Whisper Large v3 Turbo", "Качество large, скорость medium (~1.6GB)", "ggml-large-v3-turbo.bin",
            "https://huggingface.co/ggerganov/whisper.cpp/resolve/main/ggml-large-v3-turbo.bin", 1600, EngineType::Whisper),
        make_def("gigaam-v3", "GigaAM v3", "Только русский язык, высокая точность (~151MB)", "giga-am-v3",
            "https://blob.handy.computer/giga-am-v3.tar.gz", 151, EngineType::GigaAM),
    ];
    assert(defs_view(res@) =~= model_registry());
    res
}


/// No two models on offer share an id or a file name.
pub proof fn lemma_registry_distinct()
    ensures
        forall|i: int, j: int|
            0 <= i < j < model_registry().len() ==> model_registry()[i].id != model_registry()[j].id
                && model_registry()[i].filename != model_registry()[j].filename,
{
    reveal_strlit("whisper-tiny");
    reveal_strlit("whisper-base");
    reveal_strlit("whisper-small");
    reveal_strlit("whisper-medium");
    reveal_strlit("whisper-large-v3");
    reveal_strlit("whisper-large-v3-turbo");
    reveal_strlit("gigaam-v3");
    reveal_strlit("ggml-tiny.bin");
    reveal_strlit("ggml-base.bin");
    reveal_strlit("ggml-small.bin");
    reveal_strlit("ggml-medium.bin");
    reveal_strlit("ggml-large-v3.bin");
    reveal_strlit("ggml-large-v3-turbo.bin");
    reveal_strlit("giga-am-v3");
    let r = model_registry();
    assert(r[0].id.len() == 12 && r[1].id.len() == 12 && r[2].id.len() == 13);
    assert(r[3].id.len() == 14 && r[4].id.len() == 16 && r[5].id.len() == 22 && r[6].id.len() == 9);
    assert(r[0].filename.len() == 13 && r[1].filename.len() == 13 && r[2].filename.len() == 14);
    assert(r[3].filename.len() == 15 && r[4].filename.len() == 17 && r[5].filename.len() == 23);
    assert(r[6].filename.len() == 10);
    assert forall|i: int, j: int| 0 <= i < j < r.len() implies r[i].id != r[j].id && r[i].filename != r[j].filename by {
        if i == 0 && j == 1 {
            assert(r[0].id[8] != r[1].id[8]);
            assert(r[0].filename[5] != r[1].filename[5]);
        }
    }
}

/// Each model file name is a plain path component, in either path style.
pub proof fn lemma_registry_files_plain(style: PathStyle)
    ensures
        forall|i: int|
            0 <= i < model_registry().len() ==> is_plain_component(style, #[trigger] model_registry()[i].filename),
{
    reveal_strlit("ggml-tiny.bin");
    reveal_strlit("ggml-base.bin");
    reveal_strlit("ggml-small.bin");
    reveal_strlit("ggml-medium.bin");
    reveal_strlit("ggml-large-v3.bin");
    reveal_strlit("ggml-large-v3-turbo.bin");
    reveal_strlit("giga-am-v3");
    let r = model_registry();
    lemma_plain_name(style, r[0].filename);
    lemma_plain_name(style, r[1].filename);
    lemma_plain_name(style, r[2].filename);
    lemma_plain_name(style, r[3].filename);
    lemma_plain_name(style, r[4].filename);
    lemma_plain_name(style, r[5].filename);
    lemma_plain_name(style, r[6].filename);
}

proof fn lemma_plain_name(style: PathStyle, f: Seq<char>)
    requires
        f.len() > 2,
        f[1] != ':',
        forall|k: int| 0 <= k < f.len() ==> f[k] != '/' && f[k] != '\\',
    ensures
        is_plain_component(style, f),
{
    assert forall|k: int| 0 <= k < f.len() implies !is_sep(style, #[trigger] f[k]) by {
        assert(f[k] != '/' && f[k] != '\\');
    }
    assert(f.len() != seq!['.'].len());
    assert(f.len() != seq!['.', '.'].len());
}

/// The first definition of `defs` whose id is `id`.
pub open spec fn first_with_id(defs: Seq<ModelDefView>, id: Seq<char>) -> Option<ModelDefView>
    decreases defs.len(),
{
    if defs.len() == 0 {
        None
    } else if defs[0].id == id {
        Some(defs[0])
    } else {
        first_with_id(defs.drop_first(), id)
    }
}

/// The model on offer whose id is `id`.
pub open spec fn registry_find(id: Seq<char>) -> Option<ModelDefView> {
    first_with_id(model_registry(), id)
}

/// A lookup by id finds a model on offer with exactly that id, and finds
/// nothing exactly when no model on offer has that id.
pub proof fn lemma_registry_find_sound(id: Seq<char>)
    ensures
        registry_find(id) matches Some(d) ==> d.id == id && model_registry().contains(d),
        registry_find(id) is None <==> forall|i: int| 0 <= i < model_registry().len() ==> model_registry()[i].id != id,
{
    lemma_first_with_id_sound(model_registry(), id);
}

proof fn lemma_first_with_id_sound(defs: Seq<ModelDefView>, id: Seq<char>)
    ensures
        first_with_id(defs, id) matches Some(d) ==> d.id == id && defs.contains(d),
        first_with_id(defs, id) is None <==> forall|i: int| 0 <= i < defs.len() ==> defs[i].id != id,
    decreases defs.len(),
{
    if defs.len() > 0 {
        let t = defs.drop_first();
        lemma_first_with_id_sound(t, id);
        if defs[0].id == id {
            assert(defs.contains(defs[0]));
        } else {
            match first_with_id(t, id) {
                Some(d) => {
                    let k = choose|k: int| 0 <= k < t.len() && t[k] == d;
                    assert(defs[k + 1] == d);
                },
                None => {},
            }
            if forall|i: int| 0 <= i < t.len() ==> t[i].id != id {
                assert forall|i: int| 0 <= i < defs.len() implies defs[i].id != id by {
                    if i > 0 {
                        assert(defs[i] == t[i - 1]);
                    }
                }
            }
            if forall|i: int| 0 <= i < defs.len() ==> defs[i].id != id {
                assert forall|i: int| 0 <= i < t.len() implies t[i].id != id by {
                    assert(t[i] == defs[i + 1]);
                }
            }
        }
    }
}

/// Looking up the id of a model on offer finds that model.
pub proof fn lemma_registry_find_each(i: int)
    requires
        0 <= i < model_registry().len(),
    ensures
        registry_find(model_registry()[i].id) == Some(model_registry()[i]),
{
    lemma_registry_distinct();
    let r = model_registry();
    lemma_first_with_id_at(r, r[i].id, i);
}

proof fn lemma_first_with_id_at(defs: Seq<ModelDefView>, id: Seq<char>, i: int)
    requires
        0 <= i < defs.len(),
        defs[i].id == id,
        forall|k: int| 0 <= k < i ==> defs[k].id != id,
    ensures
        first_with_id(defs, id) == Some(defs[i]),
    decreases i,
{
    if i > 0 {
        assert(defs[0].id != id);
        lemma_first_with_id_at(defs.drop_first(), id, i - 1);
    }
}

/// The model on offer whose id is `model_id`, if any.
pub fn find_model(model_id: &str) -> (res: Option<ModelDef>)
    ensures
        res matches Some(d) ==> registry_find(model_id@) == Some(d@),
        res is None <==> registry_find(model_id@) is None,
{
    let registry = get_model_registry();
    let n = registry.len();
    let mut i: usize = 0;
    assert(defs_view(registry@).subrange(0, n as int) =~= defs_view(registry@));
    while i < n
        invariant
            n == registry@.len(),
            i <= n,
            defs_view(registry@) == model_registry(),
            registry_find(model_id@) == first_with_id(defs_view(registry@).subrange(i as int, n as int), model_id@),
        decreases n - i,
    {
        let ghost rest = defs_view(registry@).subrange(i as int, n as int);
        assert(rest[0] == registry@[i as int]@);
        if eq_str(registry[i].id.as_str(), model_id) {
            return Some(registry[i].duplicate());
        }
        assert(rest.drop_first() =~= defs_view(registry@).subrange(i + 1, n as int));
        i = i + 1;
    }
    None
}

/// A model as the user interface lists it.
#[derive(Debug)]
pub struct ModelInfo {
    pub id: String,
    pub name: String,
    pub description: String,
    pub engine: EngineType,
    pub size_mb: u64,
    pub is_downloaded: bool,
    pub is_downloading: bool,
}

/// How far a download has come.
#[derive(Debug)]
pub struct DownloadProgress {
    pub model_id: String,
    pub downloaded_bytes: u64,
    pub total_bytes: u64,
    pub speed_bps: u64,
}

impl DownloadProgress {
    /// The report of a download of the model `model_id` that has
    /// `downloaded_bytes` of a file announced as `total_bytes` long, at
    /// `speed_bps` bytes a second.
    pub fn new(model_id: String, downloaded_bytes: u64, total_bytes: u64, speed_bps: u64) -> (res: DownloadProgress)
        ensures
            res.model_id == model_id,
            res.downloaded_bytes == downloaded_bytes,
            res.total_bytes == total_bytes,
            res.speed_bps == speed_bps,
    {
        DownloadProgress { model_id, downloaded_bytes, total_bytes, speed_bps }
    }

    /// The bytes that count towards the share done: the downloaded bytes, but
    /// no more than the announced total, so that the share done (these bytes
    /// over the total) stays within 0 and 1 when a download runs past the
    /// announced size.
    pub fn progress_bytes(&self) -> (res: u64)
        ensures
            res == (if self.downloaded_bytes > self.total_bytes {
                self.total_bytes
            } else {
                self.downloaded_bytes
            }),
            res <= self.total_bytes,
            res <= self.downloaded_bytes,
    {
        if self.downloaded_bytes > self.total_bytes {
            self.total_bytes
        } else {
            self.downloaded_bytes
        }
    }
}

/// A download that ended well.
#[derive(Debug)]
pub struct DownloadComplete {
    pub model_id: String,
}

/// A download that failed, with the reason.
#[derive(Debug)]
pub struct DownloadError {
    pub model_id: String,
    pub error: String,
}

/// What a finished download announces.
#[derive(Debug)]
pub enum DownloadNotice {
    Complete(DownloadComplete),
    Failed(DownloadError),
}

/// A `ModelManager` as mathematical values: the models directory and how its
/// paths are written, the ids of the downloads under way, and the file names
/// found in the directory when it was last looked at.
pub struct ModelManagerView {
    pub models_dir: Seq<char>,
    pub style: PathStyle,
    pub downloading: Seq<Seq<char>>,
    pub present: Seq<Seq<char>>,
}

/// The models directory and the downloads under way.
pub struct ModelManager {
    models_dir: String,
    style: PathStyle,
    downloading: Vec<String>,
    present: Vec<String>,
}

impl View for ModelManager {
    type V = ModelManagerView;

    closed spec fn view(&self) -> ModelManagerView {
        ModelManagerView {
            models_dir: self.models_dir@,
            style: self.style,
            downloading: strings_view(self.downloading@),
            present: strings_view(self.present@),
        }
    }
}

/// Where the model file of `d` lies, if it is in the models directory.
pub open spec fn model_path_spec(m: ModelManagerView, d: ModelDefView) -> Option<Seq<char>> {
    if m.present.contains(d.filename) {
        Some(join_spec(m.style, m.models_dir, d.filename))
    } else {
        None
    }
}

/// The listing entry of `d`.
pub open spec fn info_matches(info: ModelInfo, m: ModelManagerView, d: ModelDefView) -> bool {
    &&& info.id@ == d.id
    &&& info.name@ == d.name
    &&& info.description@ == d.description
    &&& info.engine == d.engine
    &&& info.size_mb == d.size_mb
    &&& info.is_downloaded == model_path_spec(m, d) is Some
    &&& info.is_downloading == m.downloading.contains(d.id)
}

/// A listing entry carries the id, name, description, engine and size of its
/// model, says it is downloaded exactly when the model's file (or directory)
/// is among those found in the models directory, and says it is being
/// downloaded exactly when its id is among the downloads under way.
pub proof fn lemma_info_matches_fields(info: ModelInfo, m: ModelManagerView, d: ModelDefView)
    requires
        info_matches(info, m, d),
    ensures
        info.id@ == d.id,
        info.name@ == d.name,
        info.description@ == d.description,
        info.engine == d.engine,
        info.size_mb == d.size_mb,
        info.is_downloaded == m.present.contains(d.filename),
        info.is_downloading == m.downloading.contains(d.id),
{
}

/// The listing gives GigaAM v3 the GigaAM engine and every other model the
/// Whisper engine.
pub proof fn lemma_registry_engines()
    ensures
        model_registry()[6].engine == EngineType::GigaAM,
        forall|i: int| 0 <= i < 6 ==> model_registry()[i].engine == EngineType::Whisper,
{
}

/// The message for an id that names no model.
pub open spec fn not_found_message(id: Seq<char>) -> Seq<char> {
    "Модель "@ + id + " не найдена"@
}

/// The message for a model whose download is already under way.
pub open spec fn busy_message() -> Seq<char> {
    "Модель уже скачивается"@
}

/// The file name under which a download in progress is kept.
pub open spec fn partial_name(filename: Seq<char>) -> Seq<char> {
    filename + ".partial"@
}

fn not_found(model_id: &str) -> (res: String)
    ensures
        res@ == not_found_message(model_id@),
{
    let mut msg = "Модель ".to_owned();
    msg.append(model_id);
    msg.append(" не найдена");
    msg
}

impl ModelManager {
    #[verifier::type_invariant]
    spec fn inv(self) -> bool {
        strings_view(self.downloading@).no_duplicates()
    }

    /// A manager of the models kept in `models_dir`, a path written in
    /// `style`, with no download under way and no file known to be there.
    pub fn new(models_dir: String, style: PathStyle) -> (res: ModelManager)
        ensures
            res@.models_dir == models_dir@,
            res@.style == style,
            res@.downloading == Seq::<Seq<char>>::empty(),
            res@.present == Seq::<Seq<char>>::empty(),
    {
        let res = ModelManager { models_dir, style, downloading: Vec::new(), present: Vec::new() };
        assert(res@.downloading =~= Seq::<Seq<char>>::empty());
        assert(res@.present =~= Seq::<Seq<char>>::empty());
        res
    }

    /// The directory that holds the models.
    pub fn models_dir(&self) -> (res: &String)
        ensures
            res@ == self@.models_dir,
    {
        &self.models_dir
    }

    /// Records which file names were found in the models directory.
    pub fn record_present_files(&mut self, names: Vec<String>)
        ensures
            final(self)@.present == strings_view(names@),
            final(self)@.models_dir == old(self)@.models_dir,
            final(self)@.style == old(self)@.style,
            final(self)@.downloading == old(self)@.downloading,
    {
        proof {
            use_type_invariant(&*self);
        }
        self.present = names;
    }

    /// The ids of the downloads under way, none of them twice.
    pub fn downloading(&self) -> (res: Vec<String>)
        ensures
            strings_view(res@) == self@.downloading,
            self@.downloading.no_duplicates(),
    {
        proof {
            use_type_invariant(self);
        }
        crate::text::clone_strings(&self.downloading)
    }

    /// Where the model file of `def` lies, if it is in the models directory.
    pub fn model_path(&self, def: &ModelDef) -> (res: Option<String>)
        ensures
            opt_view(res) == model_path_spec(self@, def@),
    {
        if crate::text::contains_str(&self.present, def.filename.as_str()) {
            Some(path_join(self.style, self.models_dir.as_str(), def.filename.as_str()))
        } else {
            None
        }
    }

    /// Where the model file of the model `model_id` lies, if that model is on
    /// offer and its file is in the models directory.
    pub fn get_model_path_by_id(&self, model_id: &str) -> (res: Option<String>)
        ensures
            opt_view(res) == (match registry_find(model_id@) {
                Some(d) => model_path_spec(self@, d),
                None => None,
            }),
    {
        match find_model(model_id) {
            Some(def) => self.model_path(&def),
            None => None,
        }
    }

    /// The engine that runs the model whose id is `model_id`.
    pub fn get_engine_type(&self, model_id: &str) -> (res: Option<EngineType>)
        ensures
            res == (match registry_find(model_id@) {
                Some(d) => Some(d.engine),
                None => None,
            }),
    {
        match find_model(model_id) {
            Some(d) => Some(d.engine),
            None => None,
        }
    }

    /// The models on offer, each with whether its file is there and whether it
    /// is being downloaded.
    pub fn get_models(&self) -> (res: Vec<ModelInfo>)
        ensures
            res@.len() == model_registry().len(),
            forall|i: int| 0 <= i < res@.len() ==> info_matches(#[trigger] res@[i], self@, model_registry()[i]),
            forall|i: int|
                0 <= i < res@.len() ==> {
                    &&& (#[trigger] res@[i]).id@ == model_registry()[i].id
                    &&& res@[i].name@ == model_registry()[i].name
                    &&& res@[i].engine == model_registry()[i].engine
                    &&& res@[i].size_mb == model_registry()[i].size_mb
                },
    {
        let registry = get_model_registry();
        let mut res: Vec<ModelInfo> = Vec::new();
        let mut i: usize = 0;
        while i < registry.len()
            invariant
                defs_view(registry@) == model_registry(),
                i <= registry@.len(),
                res@.len() == i,
                forall|k: int| 0 <= k < i ==> info_matches(#[trigger] res@[k], self@, model_registry()[k]),
            decreases registry.len() - i,
        {
            let def = &registry[i];
            assert(model_registry()[i as int] == def@);
            let is_downloaded = self.model_path(def).is_some();
            let is_downloading = crate::text::contains_str(&self.downloading, def.id.as_str());
            res.push(ModelInfo {
                id: def.id.clone(),
                name: def.name.clone(),
                description: def.description.clone(),
                engine: def.engine,
                size_mb: def.size_mb,
                is_downloaded,
                is_downloading,
            });
            i = i + 1;
        }
        res
    }

    /// The final and the in-progress download paths of the model file of `def`.
    pub fn download_paths(&self, def: &ModelDef) -> (res: (String, String))
        ensures
            res.0@ == join_spec(self@.style, self@.models_dir, def@.filename),
            res.1@ == join_spec(self@.style, self@.models_dir, partial_name(def@.filename)),
    {
        let mut partial = def.filename.clone();
        partial.append(".partial");
        (path_join(self.style, self.models_dir.as_str(), def.filename.as_str()), path_join(self.style, self.models_dir.as_str(), partial.as_str()))
    }

    /// Where the archive of `def` is unpacked before it takes its final name.
    pub fn unpack_path(&self, def: &ModelDef) -> (res: String)
        ensures
            res@ == join_spec(self@.style, self@.models_dir, def@.filename + ".extracting"@),
    {
        let mut staging = def.filename.clone();
        staging.append(".extracting");
        path_join(self.style, self.models_dir.as_str(), staging.as_str())
    }

    /// The files to remove to delete the model `model_id`: its model file and
    /// its in-progress download, or the message for an unknown id.
    pub fn delete_model(&self, model_id: &str) -> (res: Result<(String, String), String>)
        ensures
            match registry_find(model_id@) {
                None => res matches Err(e) && e@ == not_found_message(model_id@),
                Some(d) => res matches Ok(p) && p.0@ == join_spec(self@.style, self@.models_dir, d.filename)
                    && p.1@ == join_spec(self@.style, self@.models_dir, partial_name(d.filename)),
            },
    {
        match find_model(model_id) {
            Some(def) => Ok(self.download_paths(&def)),
            None => Err(not_found(model_id)),
        }
    }

    /// Marks the model `model_id` as being downloaded and returns its
    /// definition; refuses an unknown id and a model already being downloaded,
    /// so that no model is ever marked twice.
    pub fn start_download(&mut self, model_id: &str) -> (res: Result<ModelDef, String>)
        ensures
            old(self)@.downloading.no_duplicates(),
            final(self)@.downloading.no_duplicates(),
            match registry_find(model_id@) {
                None => res matches Err(e) && e@ == not_found_message(model_id@)
                    && final(self)@ == old(self)@,
                Some(d) => if old(self)@.downloading.contains(d.id) {
                    res matches Err(e) && e@ == busy_message() && final(self)@ == old(self)@
                } else {
                    res matches Ok(def) && def@ == d
                        && final(self)@.downloading == old(self)@.downloading.push(d.id)
                        && final(self)@.models_dir == old(self)@.models_dir
                        && final(self)@.style == old(self)@.style
                        && final(self)@.present == old(self)@.present
                },
            },
    {
        proof {
            use_type_invariant(&*self);
        }
        let def = match find_model(model_id) {
            Some(d) => d,
            None => {
                return Err(not_found(model_id));
            },
        };
        if crate::text::contains_str(&self.downloading, def.id.as_str()) {
            return Err("Модель уже скачивается".to_owned());
        }
        let ghost before = self.downloading@;
        let mut ids = crate::text::clone_strings(&self.downloading);
        ids.push(def.id.clone());
        proof {
            assert(strings_view(ids@) =~= strings_view(before).push(def@.id));
        }
        self.downloading = ids;
        proof {
            assert(strings_view(self.downloading@) =~= strings_view(before).push(def@.id));
        }
        Ok(def)
    }

    /// Ends the download of the model `model_id` and says how it went.
    pub fn end_download(&mut self, model_id: &String, outcome: Result<(), String>) -> (res: DownloadNotice)
        ensures
            old(self)@.downloading.no_duplicates(),
            final(self)@.downloading.no_duplicates(),
            !final(self)@.downloading.contains(model_id@),
            final(self)@.downloading == without(old(self)@.downloading, model_id@),
            final(self)@.models_dir == old(self)@.models_dir,
            final(self)@.style == old(self)@.style,
            final(self)@.present == old(self)@.present,
            match outcome {
                Ok(()) => res matches DownloadNotice::Complete(c) && c.model_id@ == model_id@,
                Err(e) => res matches DownloadNotice::Failed(f) && f.model_id@ == model_id@ && f.error@ == e@,
            },
    {
        proof {
            use_type_invariant(&*self);
        }
        let ghost old_view = strings_view(self.downloading@);
        let mut kept: Vec<String> = Vec::new();
        let mut i: usize = 0;
        while i < self.downloading.len()
            invariant
                i <= self.downloading@.len(),
                old_view == strings_view(self.downloading@),
                strings_view(kept@) == without(old_view.subrange(0, i as int), model_id@),
            decreases self.downloading.len() - i,
        {
            let ghost pre = old_view.subrange(0, i as int);
            assert(old_view.subrange(0, i + 1).drop_last() =~= pre);
            assert(old_view[i as int] == self.downloading@[i as int]@);
            if !eq_str(self.downloading[i].as_str(), model_id.as_str()) {
                let ghost k0 = kept@;
                kept.push(self.downloading[i].clone());
                assert(strings_view(kept@) =~= strings_view(k0).push(old_view[i as int]));
            }
            i = i + 1;
        }
        assert(old_view.subrange(0, old_view.len() as int) =~= old_view);
        proof {
            lemma_without_no_duplicates(old_view, model_id@);
            lemma_without_contains(old_view, model_id@, model_id@);
        }
        self.downloading = kept;
        match outcome {
            Ok(()) => DownloadNotice::Complete(DownloadComplete { model_id: model_id.clone() }),
            Err(e) => DownloadNotice::Failed(DownloadError { model_id: model_id.clone(), error: e }),
        }
    }
}

/// `ids` without `id`, in order.
pub open spec fn without(ids: Seq<Seq<char>>, id: Seq<char>) -> Seq<Seq<char>>
    decreases ids.len(),
{
    if ids.len() == 0 {
        ids
    } else {
        let rest = without(ids.drop_last(), id);
        if ids.last() == id {
            rest
        } else {
            rest.push(ids.last())
        }
    }
}

proof fn lemma_without_contains(ids: Seq<Seq<char>>, id: Seq<char>, x: Seq<char>)
    ensures
        without(ids, id).contains(x) <==> ids.contains(x) && x != id,
    decreases ids.len(),
{
    if ids.len() > 0 {
        lemma_without_contains(ids.drop_last(), id, x);
        let d = ids.drop_last();
        if d.contains(x) {
            let k = choose|k: int| 0 <= k < d.len() && d[k] == x;
            assert(ids[k] == x);
        }
        if ids.contains(x) && !d.contains(x) {
            let k = choose|k: int| 0 <= k < ids.len() && ids[k] == x;
            if k < d.len() {
                assert(d[k] == x);
            }
        }
        let r = without(d, id);
        if ids.last() != id {
            if r.push(ids.last()).contains(x) && !r.contains(x) {
                let k = choose|k: int| 0 <= k < r.len() + 1 && r.push(ids.last())[k] == x;
                if k < r.len() {
                    assert(r[k] == x);
                }
            }
            if r.contains(x) {
                let k = choose|k: int| 0 <= k < r.len() && r[k] == x;
                assert(r.push(ids.last())[k] == x);
            }
            if x == ids.last() {
                assert(r.push(ids.last())[r.len() as int] == x);
            }
        }
    }
}

proof fn lemma_without_no_duplicates(ids: Seq<Seq<char>>, id: Seq<char>)
    requires
        ids.no_duplicates(),
    ensures
        without(ids, id).no_duplicates(),
    decreases ids.len(),
{
    if ids.len() > 0 {
        let d = ids.drop_last();
        assert(d.no_duplicates()) by {
            assert forall|i: int, j: int| 0 <= i < d.len() && 0 <= j < d.len() && i != j implies d[i] != d[j] by {
                assert(d[i] == ids[i] && d[j] == ids[j]);
            }
        }
        lemma_without_no_duplicates(d, id);
        if ids.last() != id {
            let r = without(d, id);
            lemma_without_contains(d, id, ids.last());
            assert(!d.contains(ids.last())) by {
                if d.contains(ids.last()) {
                    let k = choose|k: int| 0 <= k < d.len() && d[k] == ids.last();
                    assert(ids[k] == ids[ids.len() - 1]);
                }
            }
            assert forall|i: int, j: int|
                0 <= i < r.len() + 1 && 0 <= j < r.len() + 1 && i != j implies r.push(ids.last())[i] != r.push(
                ids.last(),
            )[j] by {
                if i == r.len() {
                    assert(r.contains(r[j]));
                } else if j == r.len() {
                    assert(r.contains(r[i]));
                }
            }
        }
    }
}

/// A download that starts and then ends leaves the list of downloads under way
/// as it found it.
pub proof fn lemma_download_round_trip(downloading: Seq<Seq<char>>, id: Seq<char>)
    requires
        !downloading.contains(id),
    ensures
        without(downloading.push(id), id) == downloading,
{
    assert(downloading.push(id).drop_last() =~= downloading);
    lemma_without_unchanged(downloading, id);
}

proof fn lemma_without_unchanged(ids: Seq<Seq<char>>, id: Seq<char>)
    requires
        !ids.contains(id),
    ensures
        without(ids, id) == ids,
    decreases ids.len(),
{
    if ids.len() > 0 {
        let d = ids.drop_last();
        assert(!d.contains(id)) by {
            if d.contains(id) {
                let k = choose|k: int| 0 <= k < d.len() && d[k] == id;
                assert(ids[k] == id);
            }
        }
        lemma_without_unchanged(d, id);
        assert(ids[ids.len() - 1] != id);
        assert(d.push(ids.last()) =~= ids);
    }
}

/// The path of a downloaded model on offer names that model's file.
pub proof fn lemma_model_path_names_its_file(m: ModelManagerView, i: int)
    requires
        0 <= i < model_registry().len(),
        model_path_spec(m, model_registry()[i]) is Some,
    ensures
        file_name_spec(m.style, model_path_spec(m, model_registry()[i])->0) == Some(model_registry()[i].filename),
{
    lemma_registry_files_plain(m.style);
    crate::text::lemma_file_name_of_join(m.style, m.models_dir, model_registry()[i].filename);
}

} // verus!
