# Figurine Studio

A pixel-art character pipeline: sprites are imported or generated by AI
(ComfyUI or a cloud service), have their background removed, are normalized
to the project's tile, laid out on a spritesheet and exported for Bevy.

## Layout

- `src/` — the library, verified with Verus. It holds the pipeline's rules
  and data: sprite and character models, file-name parsing, path safety,
  ComfyUI workflow filling and result reading, retry and polling decisions,
  generation plans (seeds, file names, progress reports, key-frame
  interpolation), spritesheet layout and Bevy metadata, migrations, and the
  restoring of the generation state. Calls into `base64`, `serde_json` and
  `uuid` go through small trusted wrappers whose contracts are documented
  beside them.
- `tests/` — tests of the library.
- `app/` — the program around the library: a JSON-lines command loop on
  standard input and output, the SQLite database, HTTP, file I/O, and the
  pixel work on images (resampling, palette reduction, blending, ONNX
  background removal), which is floating point.

Workflow templates for the ComfyUI back end are read at run time from
`workflows/` in the application's data directory
(`concept_generation.json`, `concept_art_generation.json`,
`pixel_art_conversion.json`, `direction_expansion.json`,
`animation_expansion.json`).
