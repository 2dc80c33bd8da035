# starbyte

A SNES emulator core written in Verus: the 65816 CPU, the SPC700 audio unit, the PPU, DMA,
the system bus and cartridge mapping, the enhancement chips (DSP, SuperFX, SA-1, Cx4 and the
smaller mappers), compliance-suite evaluation, and the frontend's library and session logic.
Each public function carries a `requires`/`ensures` contract that Verus proves.

Layout:

- `src/` — the verified library. Calls into `sha1`, `urlencoding` and a few `std` functions go
  through small trusted wrappers whose contracts are documented where they are declared.
- `tests/` — ordinary Rust tests run against the compiled library.
- `app/` — the `starbyte` command-line program: argument parsing, file and console I/O,
  logging, and the serialized forms of the configuration and corpus files.
