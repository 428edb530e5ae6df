# cj2k26

A small fixed-screen shoot-'em-up for a 240×160 indexed-colour screen.

- `src/` is the library, verified with Verus: colour packing and 256-entry
  palettes (`color`), blitting palette-indexed sprites into the RGBA frame
  (`gfx`), tile collision grids (`grid`), tile sets and maps (`tilemap`),
  sprites and their loading from Aseprite layers (`sprite`), held input
  (`input`), fixed-step timing, dive scheduling and the gun's cooldown
  (`timing`), gameplay randomness (`rng`), screens (`screen`), the sound
  effects' register programs and note countdowns (`sequencer`), and the
  protocol by which a sample buffer is filled from the emulated sound chip
  (`sfx`). The chip itself sits in a module of its own (`chip`) whose only
  code is the calls into the chip crate; they alone add to the records of
  the chip's output rate, register writes and sample requests that the
  contracts speak of.
- `app/` is the program around it: the window and event loop, audio device,
  file loading, the floating-point motion of the player, enemies, bullets
  and stars, and the sound effects' pitch glides.
- `tests/` exercises the library on concrete values.
