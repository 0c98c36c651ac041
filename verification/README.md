# gigantomachia

A small code-first 3D engine (window host, fly camera, procedural island, authored water,
particle fluids, FBX import, wgpu forward renderer), split into a verified core and an
unverified shell.

## Layout

- `src/` — the verified library (Verus). It holds every decision of the engine that is
  exact integer logic, with contracts and laws:
  - `app` — host configuration, window drawability, the presentation budget, and the
    response to surface failures.
  - `input` — held and pressed keys, held mouse buttons.
  - `mesh` — the CCW grid triangulation and triangle-index validation.
  - `render` — render extents, readback row padding, mesh residency on the GPU, and
    streaming-buffer capacities.
  - `fluid` — block sizes and lattice order, the neighbor hash grid, surface sampling
    budgets and marching-tetrahedra topology, GPU batch limits and dispatch sizes.
  - `terrain` — the island's lattice hash and accepted grid resolutions.
  - `asset` — vertex welding for imported meshes.
  - `water` — the water style.
- `tests/` — tests of the library on concrete values.
- `app/` — the engine around it: floating-point geometry and physics, GPU and windowing
  calls, and FBX parsing through ufbx. It calls the library for every decision listed above.

The WGSL shaders that `app/` embeds are not part of this tree.
