# horikawa

The core of Horikawa, a terminal music player, as a verified library:
the functions in `src/` carry `requires`/`ensures` contracts that Verus
proves. The calls into the standard library and `dirs` that the proofs
rely on (path operations, lowercasing, the random seed, the user's
directories) sit in small wrappers marked `#[verifier::external_body]`,
whose contracts are believed rather than proved.

## Layout

- `src/text.rs` — trimming, splitting, lines and words, decimal numbers.
- `src/playlist.rs` — the play queue: tracks, the current track,
  shuffle (the Fisher–Yates order of the random draws, proved to be a
  permutation) and repeat.
- `src/persist.rs` — the M3U playlist format, the session record and the
  names of saved playlists, with round-trip laws.
- `src/command.rs` — slash-command parsing, help text and completion.
- `src/input.rs`, `src/popup.rs` — line editing and popup dialogs.
- `src/browser.rs`, `src/library.rs`, `src/dir_playlist.rs` — the file
  browser model, audio-file recognition, scan decisions, cover art and
  directory playlists.
- `src/processor.rs`, `src/protocol.rs` — the command processor's queue
  decisions and the values sent to the frontends.
- `src/tui.rs`, `src/keys.rs`, `src/view.rs` — the terminal interface's
  decisions: selection, views, key bindings, the command and search lines.
- `src/track_info.rs` — the lines of the track info view.
- `src/paths.rs` — the `std::path` operations the library relies on, and
  path equality: two paths are the same when their components are
  (`/a//x` is `/a/x`), which is how tracks and scan roots are compared.
- `app/` — a command-line program around the library: arguments, files on
  disk, and a line-oriented prompt (`i` alone shows the track info).
- `tests/` — tests of the library's public functions.

Reading and writing files, walking directories and talking to the
terminal are left to the caller; the library takes their results as plain
values.
