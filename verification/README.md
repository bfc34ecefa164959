# storyor

Turns a novel into a storyteller-style audio play: the text is split into
chapters, summarised, cut into plot segments, written up as scripts with a
shared character library, and synthesised line by line.

## Layout

- `src/` — the verified library (Verus). Chapter splitting, the character
  library, resumable progress (checkpoint), the prompts sent to the models
  and the repairs applied to their answers, artifact paths, the speech
  messages and the decoding of returned audio, project bookkeeping, and the
  small pieces of the HTTP client that compute (URLs, error messages, the
  reading of server-sent event lines). Calls into outside crates (regex,
  sha2, base64, serde_json, uuid, chrono) sit behind small trusted wrappers whose
  contracts are stated next to them.
- `app/` — the program around it: configuration files, the HTTP client and
  web server, the pipeline's model calls and file writes, audio decoding and
  WAV joining, and serialisable copies of the library's types.
- `tests/` — tests of the library.
