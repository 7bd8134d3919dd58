# AWEBPinator

A desktop tool for assembling still images into animated WebP or MP4 files
with `ffmpeg`. The editing logic is a Verus-verified library; the GTK window,
file and process work sit around it.

## Layout

- `src/`: the verified library.
  - `types.rs`: frames, transforms and export settings.
  - `timeline.rs`, `timeline_laws.rs`: the frame sequence and its edits
    (import, duplicate, paste, remove, reorder, loops), with the laws they keep.
  - `selection.rs`: click, shift-click, ctrl-click, select-all and invert.
  - `editor.rs`, `coherence.rs`: the editor state machine; every action
    returns the follow-up work the window performs, and keeps the selection
    on frames of the timeline.
  - `preview.rs`: what the preview panes show and when a render is needed.
  - `export.rs`, `mp4.rs`: ffmpeg command lines, concat manifests, output
    paths, export sizes and MP4 encoder choice.
  - `ui.rs`, `render.rs`, `paths.rs`, `probe.rs`, `runtime.rs`, `text.rs`:
    navigation, guided crop, transform plans, file locations, parsing of
    ffmpeg listings, diagnostics and text helpers.
- `tests/`: scenario tests of the library.
- `app/`: the GTK window, dialogs, image rendering with the `image` crate,
  project files with `serde_json`, and running `ffmpeg`.
