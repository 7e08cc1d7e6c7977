# chip8 assembler and emulator

A verified library for a small CHIP-8 style machine.

- `src/assembler.rs`: label resolution (`resolve_label`) and translation of a
  list of instructions into a 4 KiB memory image (`assemble`), specified by the
  spec function `image`, with laws tying the image to what the CPU decodes.
- `src/emulator.rs`: the `CPU`, its instructions, `step`, `run` and the
  checked, bounded `run_for`, specified
  against the mathematical `MachineState` and the decoder `decode`.
- `app/main.rs`: assembles and runs a Fibonacci program and prints the result.
