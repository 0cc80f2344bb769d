# mague-rc

The core of a local assistant for technical interviews, written in Verus, and
the program around it.

Sound is captured with `ffmpeg` and streamed to a speech recogniser. Recognised
words are gathered into complete utterances. For questions of the interviewer a
local knowledge base is searched while they are still being spoken. The
question goes to a language model, and the answer is streamed to a terminal or
to a window. A second mode keeps a live-coding task up to date.

## Layout

`src/` is the library. Everything in it is verified.

| Module | What it decides |
| --- | --- |
| `text`, `unicode`, `numbers`, `ranking` | texts, comparison of floating-point numbers by their bits, stable order |
| `json`, `web` | values in JSON documents, web addresses |
| `config` | settings, their defaults and their limits |
| `events` | what the workers tell each other |
| `transcript` | from changing words to chunks that repeat nothing |
| `app::boundary` | whether an utterance seems to go on |
| `app::transcript_worker` | when speech is submitted |
| `app::retrieval` | what is looked up, and which passages are used |
| `app::controller` | commands, the end of the pipeline, the verdict on a run |
| `stt` | messages of the recogniser, the life of a connection |
| `audio` | frames of sound, restarts of the capture |
| `knowledge` | Markdown, chunks, terms, the index, the search worker |
| `llm` | prompts, conversations, the answer stream, live coding, code edits |
| `output`, `overlay`, `control` | what is shown |
| `telemetry` | the record of a run, its summary, the accuracy of recognition |
| `benchmark` | the comparison of language models on the same questions |
| `arguments`, `error` | the command line, failures in words |

`app/` is ordinary Rust: processes, sockets, files, the window, and all
arithmetic on floating-point numbers. It asks the library what to do, does it,
and tells the library what came of it. Where the library needs a JSON document
of a certain form, it is handed the function that reads one.

`tests/` runs the library on concrete values.

## What is trusted

Calls into other crates and into parts of the standard library that have no
specification stand behind small functions in `src/text.rs`, `src/unicode.rs`,
`src/web.rs`, `src/json.rs`, `src/knowledge/markdown.rs` and
`src/knowledge/index.rs`. The comment above each one says what is taken for
granted.
