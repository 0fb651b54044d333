# aim_room

The rules of a native aim trainer, written in Verus and proved against their
contracts.

- `src/` is the verified library: the drill catalogue and filters, the
  session clock and hit tally, the seeded target generator, screen
  navigation and keyboard handling, numeric field editing, settings
  choices, result history, the file-dialog protocol, and the importer for
  scenario files (profile grammar, bot roster, map spawn points and the
  scenario id).
- `app/` is the program around it: the raylib window, drawing, sound,
  floating-point geometry and scoring, JSON files on disk and the
  command-line smoke test. It calls the library for every decision above.
- `tests/` runs the library on concrete inputs.
