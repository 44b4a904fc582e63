# dioxuscut_rasterizer

The decision and bookkeeping core of a `wgpu` scene rasterizer, verified with
Verus.

`src/` is the verified library:

- `scene` — the scene graph as the GPU backend reads it; floating-point
  fields are carried as their IEEE bit patterns, compared in `float_bits`.
- `gpu_support` — whether the draw-command compiler accepts a scene (and so
  whether the frame is drawn on the GPU or by the CPU fallback), the layer
  strategies it chooses between, and the fallback diagnostics.
- `frame_route` — how one frame is routed: shader passes, interleaved shader
  segments, the texture limit, compiled GPU frames and CPU fallback; the
  checks of the texture-only (no readback) paths.
- `mask_shapes`, `mask_slots` — analytic mask slot kinds and the packing of a
  layer's clip into its mask slots; the path-mask draw color.
- `draw_commands` — the draw commands a scene compiles into (kinds and blend
  codes, in painter's order), succeeding exactly when `gpu_support` accepts.
- `draw_batches` — grouping compiled commands into draw calls.
- `composite` — blending separately rendered segments into one frame
  through the `image` crate.
- `frame_stream` — the readback ring of a streamed render.
- `image_cache`, `text_atlas` — the GPU texture cache under a byte budget and
  the text-atlas upload planning.
- `readback` — row layout of readbacks and atlas uploads, and assembly of the
  frame image through the `image` crate.
- `shader_source`, `metrics` — shader opacity rewriting, counters and
  profiling columns.

`app/` holds what the library cannot: the `wgpu` device and readback,
floating-point geometry and statistics, the per-frame planning that turns
the library's route into work, the streaming loop that performs the
scheduler's actions, and serializable copies of the statistics types.
