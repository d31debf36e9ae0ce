# vectron_render

The core of a tiered 2D/3D rendering system, verified with Verus.

`src/` is the verified library:

- `render_core/types`: 128-bit identifiers and their sequence, typed resource
  handles, and the enumerations shared by the renderer.
- `render_core/operation`: batch keys and the batcher that orders batches,
  and the order of renderer calls when a render operation is executed.
- `render_core/drawable`, `render_core/color`: index lists of rectangles,
  boxes and spheres, path segments, mesh triangles, and packed colors.
- `renderer`: the resource manager's geometry, binding and upload
  bookkeeping, the pipeline cache, the clip and transform stacks, the
  render counters, and the order of a render context's steps when it
  executes an operation.
- `math/interpolation/bezier`: spline control-point indexing.
- `effect`, `error`, `backend`: effect kinds, error types with their
  recovery actions, and the backend's resource descriptions.

Each public function states its result in `ensures`; properties that relate
several calls are public proof functions named `lemma_*`.

`app/` holds what Verus does not check: the floating-point geometry, colors,
transforms and effects, the GPU device and renderer traits driven against the
library, the process-wide identifier sequence, timing, and error types with
`Display`.

`tests/` exercises the library on concrete values.
