# just_input

Just Input types text into the focused window, key by key, for places where
pasting is not available. This crate is its verified core, written in Verus:

- `src/text.rs`: text to input units (UTF-16 code units, line breaks to Enter).
- `src/input.rs`: keyboard layouts, the key strokes for each unit, and the
  steps of a typing run.
- `src/run.rs`: performing a run step by step, stopping at the first
  batch the system refuses.
- `src/cli.rs`: the command-line grammar.
- `src/session.rs`: the decisions of the typing window (scheduling,
  cancelling, hotkey arming, status line).
- `src/hotkey.rs`, `src/timing.rs`: hotkey codes and errors; time spans.

`app/` is the program around it: argument and file reading, the window
(eframe), the keyboard and hotkey calls into Windows (windows-sys), threads
and timers.
