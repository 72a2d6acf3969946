# chip8_core

A CHIP-8 interpreter core written in Verus, with a small SDL desktop front end.

- `src/model.rs` — the abstract machine (`Chip8View`) and the meaning of one
  fetch/decode/execute step (`step`, `apply`, `fault`, `can_step`).
- `src/instruction.rs` — opcode fields and the decoder (`decode`).
- `src/sprite.rs` — sprite drawing with wrap-around and collision detection.
- `src/machine.rs` — the executable machine (`Chip8`), proved to follow the model.
- `src/laws.rs` — properties of the model proved once for all states.
- `src/input.rs`, `src/render.rs`, `src/config.rs` — keyboard mapping,
  pause/quit handling, pixel layout and colours for a front end.
- `app/` — the SDL program: reads the program file, polls events, draws.
