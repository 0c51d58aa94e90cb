# crossdev-stages

The logic behind a Gentoo cross-compilation stage builder, written in Verus:
parsing `board.conf` files and their includes, planning bootloader, kernel
and image-assembly commands, pinning sources to a lock, reading portage and
ELF scan output, and keeping registries of stage3 tarballs and sandboxes.
The functions that compute state what they return in their contracts; the
few whose answer comes from the disk or the environment (whether a cached
file exists, where the home directory is) say so in their doc comments.

- `src/` — the verified library.  Calls into outside
  crates (`sokgi`, `sha2`, `chrono`, `etcetera`, `jiff`, std's filesystem checks) go
  through small trusted wrappers whose doc comments say what is assumed.
- `tests/` — plain Rust tests against the compiled library.
- `app/` — a thin command-line front end (`board list`, `board info`,
  `image plan`, `cache clean`, `setup`) that reads files, runs commands and
  deletes what the library decides, and prints what it answers.
