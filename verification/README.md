# nuclear_core

The verified core of a desktop video/audio downloader that drives yt-dlp and
ffmpeg: request validation, command lines, error classification, output
naming and publication, inspection of downloader metadata, process
supervision, the persisted journal, the state outbox, admission and task
lifecycle, diagnostics redaction, the appearance preference, and the merge
of the sidecar programs into the inherited bundle configuration.

- `src/` is the library, checked by Verus. Its functions state what they
  return in `ensures` contracts, except where the answer comes from outside
  (the clock); properties that relate several calls are stated as `law_*`
  proof functions next to the code they are about. Calls into outside crates
  go through small trusted wrappers whose contracts say what those crates
  document.
- `tests/` runs the library on concrete values.
- `app/` holds what the library does not: file and process I/O, JSON, the
  clock, floating-point progress figures, and serializable copies of library
  types. Its download driver runs the library's download state machine;
  the job lifecycle store, the encrypted journal store and the startup
  sequence are not part of it.
