# novaclip

NovaClip turns long videos into short vertical clips with captions, and
builds faceless "studio" videos, agentic edits and repurposing campaigns
around hosted language, speech and video models.

This crate holds the decisions and text formats of that product as a
library verified with Verus, and a thin server around it.

- `src/` — the verified library. Each module states what its functions
  return in `requires`/`ensures` contracts over spec functions, and proves
  the laws that span functions (for example that caption ranges tile the
  voice-over, that a sanitized edit plan is renderable and numbered, that the
  PDF's cross references point at its objects, that scene shots tile the
  video).
  - `text`, `codec`: string helpers and the Base64/UUID/URL crates behind
    trusted wrappers.
  - `caption`, `segments`, `transcript`, `scenes`: captions, clip selection,
    transcripts and scene cuts.
  - `pipeline`, `render`, `studio`, `novaedit`, `repurpose`: the clip, studio,
    agentic-edit and repurposing pipelines' decisions and ffmpeg arguments.
  - `tasks`, `media`, `youtube`, `mcp`, `edits`, `config`: what the API routes
    decide and the prompts they send.
  - `llm`, `voice`, `wavespeed`, `scraper`, `social`, `analysis`, `reframe`,
    `pdf`: the outside services' requests and how their replies are read.
- `tests/` — tests of the library on concrete values.
- `app/` — the HTTP server and worker: I/O only (axum, SQLite, ffmpeg,
  yt-dlp, Deepgram and Gemini calls), asking the library what to do.

The server refuses studio tasks in the AI B-Roll and AI Shorts modes: the
generation steps those modes call (per-scene AI clip prompts and the AI
presenter) have no implementation to drive, so the WaveSpeed decisions in
`src/wavespeed.rs` (submit and result URLs, polling, clip lengths and
concurrency) and `studio::build_portrait_prompt` are verified but not yet
called by `app/`. Local speech recognition (Vosk, Whisper) and local speaker
diarization need native libraries that are not built here; the server asks
for Deepgram instead, and `transcript::recognized_words`,
`transcript::decode_s16le` and `transcript::assign_speakers` hold that logic for
when they are.
