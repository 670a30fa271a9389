# fred

Byte-level logic of a hooking DLL for a 32-bit x86 game, verified with Verus.

- `src/encoding.rs`: `jmp rel32`, `call rel32`, the opcode-plus-immediate patch and
  `nop` runs; every relative branch is proved to reach its target.
- `src/region.rs`: writes into a modelled code region at absolute addresses, with
  exact frame conditions.
- `src/hooking.rs`: inline hooks: the handler (save registers, call the callback,
  restore, run the relocated instructions, jump back) and the jump written over
  the hooked code.
- `src/win.rs`: page protections and their operating-system values.
- `src/files.rs`: the file records handed to the game, path sanitising and the
  plugin filter.
- `app/`: the Windows side (memory protection, allocation, detours, console,
  launcher, game patches), which writes the bytes that the library computes.
