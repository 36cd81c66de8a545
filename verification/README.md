# ac_internal

A library for an internal AssaultCube helper that is preloaded into the game
process: ESP boxes, god mode, infinite ammo and no-recoil.

`src/` holds the verified logic (Verus):

- `memory` – a byte model of process memory and the chunking of large writes
  (`split_write`), with the proof that chunked writing equals one write.
- `patch` – the abstract state of a code patch and the proof that writing the
  saved bytes back undoes any patch that stays within them.
- `hacks` – infinite ammo, god mode (including the assembler text of its hook
  and detour) and the ESP's per-frame plan; `aimbot` – the aim bot's switches
  and its no-recoil patch.
- `game`, `player` – game modes, names, the player vector, teams and states.
- `utils` – the image base from the first memory-map line, and the view
  matrix's cell addresses.
- `control` – key handling, module lookup and status messages of the loader.
- `text` – hexadecimal formatting and name decoding.

`app/` holds what runs inside the game: the constructor, the keyboard polling
thread, the `SDL_GL_SwapWindow` hook, `/proc/self/mem` access, page mapping,
the assembler run, OpenGL drawing and the floating-point projection.
