# estrol

The decision-making core of a small wgpu rendering library, written in Verus
and verified: what a shader declares, how its bind groups are laid out, how
textures, buffers, render passes and pipelines are checked and planned, and
the files the library reads and writes.

- `src/` is the verified library. Each module states its behaviour in
  `requires`/`ensures` over spec functions, and the properties that relate
  several operations stand as proof functions (`lemma_*`).
- `tests/` runs the library on concrete values.
- `app/` is the unverified glue: the messages of shader errors, the file
  system, wgpu type conversions and glyph rasterization with fontdue.

Modules of `src/`:

| module | contents |
|---|---|
| `shader_types` | shader reflection types |
| `binary_shader` | the binary shader format and its reader |
| `reflection` | reflection of a shader module: bindings, sizes, entry points |
| `wgsl` | WGSL sources parsed by naga and reflected; shader validity |
| `bind_layout` | bind group layouts from reflections |
| `graphics` | graphics shader sources, vertex input descriptions, lookups |
| `texture_types`, `texture` | formats, blending, texture plans, row padding |
| `buffer` | buffer usages and plans |
| `cache` | frame-lifetime caches and staging buffers |
| `gpu` | adapters, limits, features, surface configuration |
| `atlas` | texture atlas packing, placements apart, lookup by id |
| `font`, `font_cache` | font information, glyph atlases, the font cache file |
| `attachment` | resources attached to bind group slots |
| `pipeline` | compute and render pipeline builders |
| `pass` | render pass targets, render and compute pass state, cached pipelines and bind groups |
| `drawing` | index and batch bookkeeping of 2D drawing: batches tile the index list |
