# kotone

The verified core of Kotone, a voice-chat assistant for games: hold or tap a
hotkey, speak, and the recognised sentence is typed into the game's chat box.

`src/` is the library, checked by Verus:

- `hotkey` — hotkey strings, key names and the keyboard-hook matcher;
- `interaction`, `orchestrator`, `runtime`, `vad` — session policy, the
  session state machine, the runtime phases and silence detection;
- `profile` — game profiles, chat channels, process matching, hotword
  import/export and built-in updates;
- `history`, `eval`, `process_log`, `diagnostics`, `wav` — records kept on
  disk, their formats, and what a trim, deletion or redaction removes;
- `connection`, `settings`, `postprocess`, `stt`, `audio`, `desktop`, `cli` —
  configuration records, patching the configuration document, and the
  decisions of the two front ends;
- `json` — the JSON document model the configuration is patched and read in;
- `text` — character-sequence helpers shared by the rest.

`app/` is the command-line front end: argument handling and file storage
under `~/.kotone/`, and the asynchronous runner of a post-processing
pipeline, which awaits each processor under its time limit while
`postprocess::PipelineRun` decides what comes before and after each step. `tests/` exercises the library.
