# chip8

A CHIP-8 interpreter core written in Verus, with a small SDL front end.

- `src/machine.rs`: the model of the machine (registers, stack, memory,
  display, keypad as sequences and numbers), the meaning of every instruction
  word (`decode`), and what executing one does (`step`, `can_step`).
- `src/cpu.rs`: the interpreter itself (`CPU`). `new` loads the glyphs and a
  program; `execute`, `handle_opcode` and `cycle` run instructions, each
  proved to follow `step`.
- `src/opcode.rs`: the fields of an instruction word.
- `src/font.rs`, `src/keyboard.rs`: the digit glyphs and the keypad state.
- `src/laws.rs`: properties proved across instructions: a return undoes a
  call, loading registers undoes storing them, drawing a sprite twice restores
  the display, the timers count down, and others.
- `app/`: the program around the library: reads the ROM, opens the window,
  reads the host keyboard, plays the tone.
