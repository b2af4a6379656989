# scsl_core

The core of SwiftCraftServerLauncher's command line `scsl`: local Minecraft servers,
their launch commands, downloads, mirrors, Modrinth lookups, schedules of the
background agent, backups and the game's own files.

- `src/` is the library, verified with Verus. Each public function states what it
  returns in its contract; the laws that span functions (what a store gives back after
  a save, what splitting undoes of quoting, what the RCON decoder gives back of the
  encoder, and others) are public proof functions next to the code they speak of.
- `app/` is the `scsl` program around it: argument handling, files, processes,
  `curl`, SQLite, zip archives, NBT files, launchd and the JSON envelope
  (`{"ok":true,"data":...}` / `{"ok":false,"error":{"message":...}}`).
- `tests/` runs the library on concrete values.
