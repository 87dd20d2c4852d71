# chip8

A CHIP-8 virtual machine whose core is verified with Verus.

- `src/stack.rs`: the fifteen-entry return-address stack, modelled as a
  sequence of addresses; pushes onto a full stack and pops from an empty one
  fail with an error and leave it unchanged.
- `src/graphics.rs`: the 64 x 32 frame buffer and XOR sprite drawing with
  wrap-around and collision detection, specified as a fold over the sprite's
  bits, with proofs that drawing twice restores the screen and that a sprite
  of at most 32 rows toggles exactly the pixels under its set bits.
- `src/chip8.rs`: the machine state, the opcode decoder, the precise
  conditions under which a cycle cannot be carried out (`Chip::fault`), and
  `Chip::cycle`, proved to perform exactly one step of the instruction
  semantics given by the spec function `step`.
- `app/`: the windowed front end (file loading, timing, keyboard and
  drawing through `piston_window`).
