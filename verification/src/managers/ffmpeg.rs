use vstd::prelude::*;

use crate::text::{first_line, is_clean_path, opt_view, strings_view, trim_spec};

verus! {

/// Locates the FFmpeg program and states how it converts a file.
#[derive(Debug)]
pub struct FfmpegManager {
    path: Option<String>,
}

impl View for FfmpegManager {
    type V = Option<Seq<char>>;

    closed spec fn view(&self) -> Option<Seq<char>> {
        opt_view(self.path)
    }
}

/// The places where FFmpeg is looked for first on macOS.
pub open spec fn macos_ffmpeg_paths() -> Seq<Seq<char>> {
    seq!["/opt/homebrew/bin/ffmpeg"@, "/usr/local/bin/ffmpeg"@, "/usr/bin/ffmpeg"@]
}

/// The places where FFmpeg is looked for first on Linux.
pub open spec fn linux_ffmpeg_paths() -> Seq<Seq<char>> {
    seq!["/usr/bin/ffmpeg"@, "/usr/local/bin/ffmpeg"@, "/snap/bin/ffmpeg"@]
}

/// The system the application runs on, as far as locating FFmpeg goes.
#[derive(Clone, Copy, Debug, PartialEq, Eq, Structural)]
pub enum Platform {
    MacOs,
    Linux,
    Windows,
    Other,
}

/// The places where FFmpeg is looked for first on `platform`.
pub open spec fn common_paths_spec(platform: Platform) -> Seq<Seq<char>> {
    match platform {
        Platform::MacOs => macos_ffmpeg_paths(),
        Platform::Linux => linux_ffmpeg_paths(),
        _ => Seq::empty(),
    }
}

/// Each place where FFmpeg is looked for first is a clean path text.
pub proof fn lemma_common_paths_clean(platform: Platform)
    ensures
        forall|i: int|
            0 <= i < common_paths_spec(platform).len() ==> is_clean_path(#[trigger] common_paths_spec(platform)[i]),
{
    reveal_strlit("/opt/homebrew/bin/ffmpeg");
    reveal_strlit("/usr/local/bin/ffmpeg");
    reveal_strlit("/usr/bin/ffmpeg");
    reveal_strlit("/snap/bin/ffmpeg");
}

/// The places where FFmpeg is looked for first on `platform`.
pub fn common_paths(platform: Platform) -> (res: Vec<String>)
    ensures
        strings_view(res@) == common_paths_spec(platform),
{
    let res = match platform {
        Platform::MacOs => vec![
            "/opt/homebrew/bin/ffmpeg".to_owned(),
            "/usr/local/bin/ffmpeg".to_owned(),
            "/usr/bin/ffmpeg".to_owned(),
        ],
        Platform::Linux => vec![
            "/usr/bin/ffmpeg".to_owned(),
            "/usr/local/bin/ffmpeg".to_owned(),
            "/snap/bin/ffmpeg".to_owned(),
        ],
        _ => Vec::new(),
    };
    assert(strings_view(res@) =~= common_paths_spec(platform));
    res
}

/// The path that the output of the PATH lookup names: on Windows `where`
/// lists every match, one per line, and the first line counts; elsewhere
/// `which` prints one path. Either way surrounding white space goes.
pub open spec fn lookup_path(platform: Platform, out: Seq<char>) -> Seq<char> {
    if platform == Platform::Windows {
        trim_spec(first_line(out))
    } else {
        trim_spec(out)
    }
}

/// On Windows only the first line of the lookup's output counts: the paths
/// that `where` lists after it are ignored, whatever they are. Elsewhere the
/// whole output, trimmed, is the path.
pub proof fn lemma_lookup_first_line(line: Seq<char>, rest: Seq<char>, platform: Platform)
    requires
        forall|k: int| 0 <= k < line.len() ==> line[k] != '\n',
    ensures
        lookup_path(Platform::Windows, line + seq!['\n'] + rest) == trim_spec(line),
        lookup_path(Platform::Windows, line) == trim_spec(line),
        platform != Platform::Windows ==> lookup_path(platform, line) == trim_spec(line),
{
    crate::text::lemma_first_line_before_feed(line, rest);
}

/// The first candidate that is a file, else the path that a successful PATH
/// lookup printed (see `lookup_path`), when it is not empty.
pub open spec fn select_spec(
    candidates: Seq<Seq<char>>,
    is_file: Seq<bool>,
    lookup: Option<Seq<char>>,
    platform: Platform,
) -> Option<Seq<char>>
    decreases candidates.len(),
{
    if candidates.len() == 0 || is_file.len() == 0 {
        match lookup {
            Some(out) => if lookup_path(platform, out).len() > 0 {
                Some(lookup_path(platform, out))
            } else {
                None
            },
            None => None,
        }
    } else if is_file[0] {
        Some(candidates[0])
    } else {
        select_spec(candidates.drop_first(), is_file.drop_first(), lookup, platform)
    }
}

/// The search takes the first candidate that is a file, wherever it stands in
/// the list, whatever the PATH lookup said; when no candidate is a file, the
/// answer is the non-empty path that the lookup printed, or none.
pub proof fn lemma_select_first_file(
    candidates: Seq<Seq<char>>,
    is_file: Seq<bool>,
    lookup: Option<Seq<char>>,
    platform: Platform,
    i: int,
)
    requires
        candidates.len() == is_file.len(),
        0 <= i <= candidates.len(),
        forall|k: int| 0 <= k < i ==> !is_file[k],
    ensures
        i < candidates.len() && is_file[i] ==> select_spec(candidates, is_file, lookup, platform) == Some(
            candidates[i],
        ),
        i == candidates.len() ==> select_spec(candidates, is_file, lookup, platform) == (match lookup {
            Some(out) => if lookup_path(platform, out).len() > 0 {
                Some(lookup_path(platform, out))
            } else {
                None
            },
            None => None,
        }),
    decreases i,
{
    if i > 0 {
        assert(!is_file[0]);
        let c = candidates.drop_first();
        let f = is_file.drop_first();
        assert forall|k: int| 0 <= k < i - 1 implies !f[k] by {
            assert(f[k] == is_file[k + 1]);
        }
        lemma_select_first_file(c, f, lookup, platform, i - 1);
        if i < candidates.len() {
            assert(c[i - 1] == candidates[i] && f[i - 1] == is_file[i]);
        }
    }
}

/// Where FFmpeg is on `platform`: the first of its common places that is a
/// file (`is_file[i]` says whether the `i`-th is), else the path that the
/// output of a successful PATH lookup (`lookup`) names, when there is one.
pub fn select_ffmpeg(platform: Platform, is_file: &Vec<bool>, lookup: Option<String>) -> (res: Option<String>)
    requires
        is_file.len() == common_paths_spec(platform).len(),
    ensures
        opt_view(res) == select_spec(common_paths_spec(platform), is_file@, opt_view(lookup), platform),
        res matches Some(p) ==> is_clean_path(p@),
        forall|i: int|
            0 <= i < is_file@.len() && #[trigger] is_file@[i] && (forall|k: int| 0 <= k < i ==> !is_file@[k])
                ==> opt_view(res) == Some(common_paths_spec(platform)[i]),
        is_file@.len() > 0 && is_file@[0] ==> opt_view(res) == Some(common_paths_spec(platform)[0]),
        (forall|k: int| 0 <= k < is_file@.len() ==> !is_file@[k]) ==> opt_view(res) == (match opt_view(lookup) {
            Some(out) => if lookup_path(platform, out).len() > 0 {
                Some(lookup_path(platform, out))
            } else {
                None
            },
            None => None,
        }),
{
    proof {
        let cs = common_paths_spec(platform);
        assert forall|i: int|
            0 <= i < is_file@.len() && #[trigger] is_file@[i] && (forall|k: int| 0 <= k < i ==> !is_file@[k])
            implies select_spec(cs, is_file@, opt_view(lookup), platform) == Some(cs[i]) by {
            lemma_select_first_file(cs, is_file@, opt_view(lookup), platform, i);
        }
        if forall|k: int| 0 <= k < is_file@.len() ==> !is_file@[k] {
            lemma_select_first_file(cs, is_file@, opt_view(lookup), platform, is_file@.len() as int);
        }
    }
    let candidates = common_paths(platform);
    let n = candidates.len();
    let mut i: usize = 0;
    proof {
        lemma_common_paths_clean(platform);
    }
    assert(strings_view(candidates@).subrange(0, n as int) =~= strings_view(candidates@));
    assert(is_file@.subrange(0, n as int) =~= is_file@);
    while i < n
        invariant
            n == candidates@.len(),
            n == is_file@.len(),
            i <= n,
            strings_view(candidates@) == common_paths_spec(platform),
            forall|k: int| 0 <= k < n ==> is_clean_path(#[trigger] common_paths_spec(platform)[k]),
            forall|j: int|
                0 <= j < is_file@.len() && #[trigger] is_file@[j] && (forall|k: int| 0 <= k < j ==> !is_file@[k])
                    ==> select_spec(common_paths_spec(platform), is_file@, opt_view(lookup), platform) == Some(
                    common_paths_spec(platform)[j],
                ),
            (forall|k: int| 0 <= k < is_file@.len() ==> !is_file@[k]) ==> select_spec(
                common_paths_spec(platform),
                is_file@,
                opt_view(lookup),
                platform,
            ) == (match opt_view(lookup) {
                Some(out) => if lookup_path(platform, out).len() > 0 {
                    Some(lookup_path(platform, out))
                } else {
                    None
                },
                None => None,
            }),
            select_spec(strings_view(candidates@), is_file@, opt_view(lookup), platform) == select_spec(
                strings_view(candidates@).subrange(i as int, n as int),
                is_file@.subrange(i as int, n as int),
                opt_view(lookup),
                platform,
            ),
        decreases n - i,
    {
        let ghost c = strings_view(candidates@).subrange(i as int, n as int);
        let ghost f = is_file@.subrange(i as int, n as int);
        assert(c[0] == candidates@[i as int]@);
        if is_file[i] {
            assert(common_paths_spec(platform)[i as int] == candidates@[i as int]@);
            return Some(candidates[i].clone());
        }
        assert(c.drop_first() =~= strings_view(candidates@).subrange(i + 1, n as int));
        assert(f.drop_first() =~= is_file@.subrange(i + 1, n as int));
        i = i + 1;
    }
    match lookup {
        Some(out) => {
            let text = if platform == Platform::Windows {
                crate::text::first_line_of(out.as_str())
            } else {
                out
            };
            let trimmed = crate::text::trim(text.as_str());
            proof {
                crate::text::lemma_trim_clean(text@);
            }
            lookup_answer(trimmed)
        },
        None => None,
    }
}

/// The FFmpeg path that a trimmed `which ffmpeg` answer gives: none when the
/// answer is empty.
pub fn lookup_answer(trimmed: String) -> (res: Option<String>)
    ensures
        opt_view(res) == (if trimmed@.len() > 0 {
            Some(trimmed@)
        } else {
            None
        }),
{
    if trimmed.as_str().unicode_len() > 0 {
        Some(trimmed)
    } else {
        None
    }
}

/// The message for a conversion asked of a missing FFmpeg.
pub open spec fn missing_message() -> Seq<char> {
    "FFmpeg не найден. Установите: brew install ffmpeg"@
}

/// The message for a conversion that ended with `code`, or with no code (as
/// when a signal stopped it), which reads as -1.
pub open spec fn exit_message(code: Option<i32>) -> Seq<char> {
    "FFmpeg завершился с кодом "@ + crate::managers::download::signed_decimal(
        match code {
            Some(c) => c as int,
            None => -1,
        },
    )
}

/// The message for a conversion that left no output file.
pub open spec fn no_output_message() -> Seq<char> {
    "FFmpeg не создал выходной файл"@
}

/// How a conversion to `output` went: the output path when FFmpeg succeeded and
/// the file is there; otherwise the message for its exit code, or for the
/// missing file.
pub fn extraction_outcome(success: bool, code: Option<i32>, output_exists: bool, output: String) -> (res: Result<
    String,
    String,
>)
    ensures
        !success ==> (res matches Err(e) && e@ == exit_message(code)),
        success && !output_exists ==> (res matches Err(e) && e@ == no_output_message()),
        success && output_exists ==> res == Ok::<String, String>(output),
{
    if !success {
        let c: i32 = match code {
            Some(c) => c,
            None => -1,
        };
        let mut msg = "FFmpeg завершился с кодом ".to_owned();
        msg.append(crate::managers::download::signed_decimal_string(c).as_str());
        return Err(msg);
    }
    if !output_exists {
        return Err("FFmpeg не создал выходной файл".to_owned());
    }
    Ok(output)
}

/// The arguments that make FFmpeg write the audio of `input` to `output` as
/// 16 kHz mono 16-bit PCM WAV, overwriting it.
pub open spec fn extract_args_spec(input: Seq<char>, output: Seq<char>) -> Seq<Seq<char>> {
    seq![
        "-y"@,
        "-i"@,
        input,
        "-vn"@,
        "-ar"@,
        "16000"@,
        "-ac"@,
        "1"@,
        "-c:a"@,
        "pcm_s16le"@,
        "-f"@,
        "wav"@,
        output,
    ]
}

/// The name of a temporary WAV file for the id `id`.
pub open spec fn temp_wav_name_spec(id: Seq<char>) -> Seq<char> {
    "handyfiles_"@ + id + ".wav"@
}

impl FfmpegManager {
    #[verifier::type_invariant]
    spec fn inv(self) -> bool {
        self.path matches Some(p) ==> is_clean_path(p@)
    }

    /// A manager for the FFmpeg program at `path`, or for none.
    pub fn new(path: Option<String>) -> (res: FfmpegManager)
        requires
            path matches Some(p) ==> is_clean_path(p@),
        ensures
            res@ == opt_view(path),
    {
        FfmpegManager { path }
    }

    /// Where the FFmpeg program is: a path that is not empty and has no
    /// surrounding white space.
    pub fn binary_path(&self) -> (res: Option<String>)
        ensures
            opt_view(res) == self@,
            res matches Some(p) ==> is_clean_path(p@),
    {
        proof {
            use_type_invariant(self);
        }
        crate::text::clone_opt(&self.path)
    }

    /// Whether FFmpeg was found.
    pub fn is_available(&self) -> (res: bool)
        ensures
            res == self@ is Some,
    {
        self.path.is_some()
    }

    /// The program to run for a conversion, or the message that it is missing.
    pub fn program(&self) -> (res: Result<String, String>)
        ensures
            match self@ {
                Some(p) => res matches Ok(q) && q@ == p && is_clean_path(p),
                None => res matches Err(e) && e@ == missing_message(),
            },
    {
        proof {
            use_type_invariant(self);
        }
        match &self.path {
            Some(p) => Ok(p.clone()),
            None => Err("FFmpeg не найден. Установите: brew install ffmpeg".to_owned()),
        }
    }

    /// The arguments of a conversion of `input` to `output` (see
    /// `extract_args_spec`).
    pub fn extract_args(input: &str, output: &str) -> (res: Vec<String>)
        ensures
            strings_view(res@) == extract_args_spec(input@, output@),
    {
        let res = vec![
            "-y".to_owned(),
            "-i".to_owned(),
            input.to_owned(),
            "-vn".to_owned(),
            "-ar".to_owned(),
            "16000".to_owned(),
            "-ac".to_owned(),
            "1".to_owned(),
            "-c:a".to_owned(),
            "pcm_s16le".to_owned(),
            "-f".to_owned(),
            "wav".to_owned(),
            output.to_owned(),
        ];
        assert(strings_view(res@) =~= extract_args_spec(input@, output@));
        res
    }

    /// A fresh name for a temporary WAV file.
    pub fn temp_wav_name() -> (res: String)
        ensures
            exists|id: Seq<char>| crate::ids::is_uuid_v4(id) && res@ == temp_wav_name_spec(id),
    {
        Self::temp_wav_name_for(crate::ids::new_id().as_str())
    }

    /// The name of the temporary WAV file for the id `id`.
    pub fn temp_wav_name_for(id: &str) -> (res: String)
        ensures
            res@ == temp_wav_name_spec(id@),
    {
        let mut name = "handyfiles_".to_owned();
        name.append(id);
        name.append(".wav");
        name
    }
}

} // verus!
