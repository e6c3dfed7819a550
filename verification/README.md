# wgpu_renderer

The decisions of a wgpu renderer, written and proved in Verus: what lives where, what is
drawn in which order, what is uploaded, and what is made anew.

- `src/` is the verified library. It holds plain values only: handles, integers, and the bit
  patterns of floats. Each module states what it does in its contracts; public proof functions
  state what holds across them.
  - `slots`, `index`, `handles`, `buckets`, `bits`, `math`, `buffers`, `ffi`, `desc`: the ground
    that the rest stands on.
  - `textures`, `samplers`, `gfx2d`: textures, their mips, and the flat overlay.
  - `gfx3d`: meshes, the draw plan, state tracking in a pass, shadows, culling, sky visibility.
  - `terrain`, `grid`, `grass`, `water`, `sky`, `underwater`: the outdoor passes.
  - `startup`, `frame`, `frame_laws`: what a device must offer, and what a frame consists of.
- `app/` owns the window, the device and the C interface. It carries out what the library
  decides, and does the floating point work. Shader sources are read at run time from the
  directory that `WGR_SHADERS` names.
- `tests/` runs the library.

The slot maps come from `slotmap` and the hash tables use the hasher of `rustc-hash`; the
functions of `slots` and `index` that call them are trusted, and say what they claim.
