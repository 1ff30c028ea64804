# handyfiles

The verified core of HandyFiles, a desktop tool that transcribes audio and
video files with local speech models (Whisper and GigaAM).

- `src/` is the library, checked by Verus:
  - `text.rs`: string equality, path rules for Unix and Windows paths (file
    name, extension, join), white-space trimming and first lines, and the
    std lower-casing it relies on;
  - `ids.rs`: fresh file ids;
  - `settings.rs`: user settings and their defaults;
  - `managers/`: the model registry and download bookkeeping (`model.rs`,
    `download.rs`), the decoder formats (`audio.rs`), FFmpeg lookup and
    arguments (`ffmpeg.rs`), the loaded-model record and idle unloading
    (`transcription.rs`), and the application state with the file queue
    (`mod.rs`);
  - `commands.rs`: what each user command decides;
  - `transcribe_run.rs`: the transcription of a queued file as a step
    function from phase and reported outcome to next phase and next piece of
    work, with the file's status kept along the way.
- `app/` is the Tauri shell: command handlers, file and network I/O, audio
  decoding with Symphonia and Rubato, archive unpacking, and the Whisper and
  GigaAM engines; it performs the work that the library's steps ask for.
- `tests/` runs the library on concrete values.
