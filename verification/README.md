# world_wgpu

The verified core of a wgpu renderer of the Earth, its satellites and the sky.

`src/` is checked by Verus:

- `sphere` — the face structure of the subdivided icosahedron: faces, shared edge
  midpoints, and which edge each new vertex halves.
- `mesh` — the satellite, marker cube, billboard and station cone meshes, with exact
  fixed-point coordinates and symbolic ring points.
- `constellations` — the constellation figures, their catalog keys, lookup in the star
  catalog, and the polylines and line list drawn from the resolved stars.
- `catalog` — reading the gzip-compressed CSV star catalog into a table of text cells.
- `texture` — decoding, the successive-halving mip chain, and row padding for uploads.
- `frame` — per-frame decisions: buffer growth, target sizes, pass order, instance caps.
- `input` — what the camera does with an input event; which Earth texture to load.

`app/` holds what the verifier does not model: floating-point geometry and astronomy,
file reading, asynchronous loading, and the conversion of exact meshes to float vertices.

The GPU pipelines that draw these meshes and textures (wgpu, through iced) are not part
of this crate: their shaders and the scene model they draw are not included, so only
the decisions they take (in `frame`) and the data they upload are kept here.

`tests/` exercises the library on concrete values.
