# oracle_steam

A Steamworks API emulator. The state of every emulated interface (HTTP,
screenshots, friends, game servers, input, inventory, remote storage,
workshop, networking sockets, music, user, utilities) and the operations the
exported `SteamAPI_*` functions perform on it live in a library verified with
Verus.

Layout:

- `src/` — the verified library. Each module holds one interface's state,
  its view as mathematical values, its well-formedness invariant, and the
  operations with their contracts; the `lemma_*` proof functions state the
  properties that relate several operations (reading back what was written,
  what closing or deleting forgets, how tickets and frames are laid out).
  Calls into `rand`, `sha2`, `hmac`, `base64`, `aes` and `rsa` go through
  small trusted wrappers whose contracts say what those crates guarantee.
- `app/` — the C-facing side: the `#[no_mangle]` exports, the process-wide
  state behind locks, files, sockets, clocks, threads, async services, and
  the command-line tools. It moves values in and out of the library.
- `tests/` — tests of the library on concrete values.
