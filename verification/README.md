# editors_engine

The core of a video editing engine, written in Verus. The functions in
`src/` carry `requires`/`ensures` contracts that Verus proves; the few
calls into std and outside crates (uuid, chrono, crc32fast, serde_json)
stand behind small wrappers whose contracts are stated, not proved.

## Layout

- `src/` — the verified library.
  - `project/` — clips, tracks, the timeline, keyframes, projects and media
    assets, timecodes, and the interchange writers (EDL, FCPXML, OTIO).
  - `effects/` — effect parameters and pipelines, transitions (wipe and
    slide routing), `.cube` LUT scanning, colour matching, the
    legalizer's YCbCr tables, stabilization and point-tracking searches,
    markers, multicam, macros, presets, workspaces, mixer state, nested
    sequences, text overlays and the effect catalogs.
  - `export_engine/` — export settings and presets, RGBA to YUV 4:2:0
    conversion, the hardware encoder's state, and the batch export queue.
  - `pipeline/` — preview quality levels.
  - `keyed.rs`, `sorting.rs`, `text.rs`, `float_bits.rs` — a string-keyed
    store, stable keyed sorting, decimal/hex text, and `f32`/`f64` values
    held as their bits (ordering and clamping without floating point).
- `tests/` — tests of the library's public functions.
- `app/` — the unverified rest: logging start-up, file-system access,
  serde copies of library types, and the floating-point pixel, audio and
  timing arithmetic, each computing on values the library hands out.

Floating-point quantities cross into `src/` as the bits of their `f32` or
`f64` value (`*_bits` fields); the library compares and clamps them by
their bits and never computes on them as numbers.
