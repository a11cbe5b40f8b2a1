# terrarium

The CPU-side texture and geometry layer of the Terrarium 3D engine, written in
Verus and proved against its contracts.

`src/` is the verified library:

- `raster` — the packed row-major RGBA8 pixel model, mirroring and rotation,
  grayscale and RGB inversion, with their algebraic laws.
- `material` — `Image`, `Texture`, validation, pixel access, mesh material
  slots and the texture vocabulary (handles, filters, color spaces, errors).
- `mip` — box-filter downsampling and the mip chain.
- `srgb` — the sRGB transfer curve in fixed point.
- `sampler` — the sampler filtering each texture filter selects.
- `batching` — grouping visible instances into draw batches, their layout
  in the instance buffer, and merging batches into draw runs.
- `material_import` — which glTF material maps become workspace textures,
  in which color space and with which filter, and the image cache.
- `surface` — packed surface maps, sRGB re-encoding, buffer alignment and
  the unpadding of read-back rows.
- `pixel_format` — expansion of 8- and 16-bit glTF image data to RGBA8.
- `mesh_import` — triangulation, index checks, winding, the vertex budget,
  material slot assignment and the all-or-nothing index bookkeeping of glTF
  primitives.
- `workspace_textures` — the versioned texture store of a workspace.
- `tween` — tween pass counting and the identifiers and lifetimes of tween
  tracks.
- `face`, `outline`, `hashing` — small enums and helpers.

`app/` holds what works in floating point (tinting, easing curves, normal
classification, float pixel formats, normals and tangents, materials and
colors, glTF material factors, the tween manager's updates) and the error
types with their display messages.
