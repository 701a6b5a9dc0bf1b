# forkpkg

Local editable forks for Nix packages.

`forkpkg` copies the source tree that Nix would build for a package into a local Git
repository, rebuilds the package from the edited source, and lets the machine use the
result: through a Nix profile, a generated NixOS or Home Manager module, links in
`~/.local/bin`, or a systemd user override.

## Layout

- `src/` is the library, verified with Verus. It decides; it never touches the machine.
  What was read of the file system or printed by a command comes in as plain values, and
  what is to be done goes out as plain values.
- `src/activation/` plans, checks and carries out activations. Changes of the machine are
  transactions: a transaction names its next action, is told what came of it, and takes
  back what it did where an action fails. `world.rs` proves of activations of links and
  services that a failure leaves no trace and that disabling undoes enabling, for records
  whose parts are in places of their own and snapshots that tell what stands there.
  `layout.rs` proves that planned records are like that, and that machines with files in
  the way of links are covered. `undoing.rs` proves that an activation which nothing has
  touched since can be undone, and that disabling takes a profile entry out again.
- The library says which paths a snapshot has to tell of (`record_places`,
  `planning_places`, `selection_places`, `metadata_places`, `candidate_paths`), and proves
  that nothing else counts.
- `tests/` runs the library on a machine in memory.
- `app/` is the command line program: it reads files, runs `nix`, `git` and `systemctl`,
  and performs the actions that the library asks for.

## What is trusted

Contracts of outside code that are believed, not proved, stand in four files, each with a
comment that says what is claimed: `src/hashing.rs` (blake3), `src/archive.rs` (tar),
`src/nix.rs` (serde_json) and `src/text.rs` (two functions of std).
