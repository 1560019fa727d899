# QubePixel screens

The screens of a voxel game: the main menu, the settings, the block editor, the
entity editor and the game itself with its inventory, its chunk meshes, its
lights and its animals.

- `src/` is the library. It holds what the screens decide and compute, written
  and proved in Verus: inventories, menus, editors, key presses, the books of
  what is on the GPU, the pictures and shapes that are made from nothing. Every
  function states what it returns or changes; functions whose names begin with
  `law_` state what holds of several of them together.
- `app/` is ordinary Rust around it: windows, files, GPU passes, and the
  geometry in floating point. `app/host.rs` lists what it asks of the rest of the
  game.
- `tests/` runs the library.

Numbers with a fraction are carried through the library as their bits; the few
comparisons that are made on them are in `src/single.rs` and
`src/profiler_overlay.rs`.
