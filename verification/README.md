# rustyproject

A ProjectLibre-style Gantt planner whose planning core is verified with Verus.

- `src/` is the verified library: calendar days and working-day rules
  (`calendar`), text helpers (`text`), the task model (`model`), scheduling
  (`schedule`: calendar normalisation, finish-to-start constraints, summary
  roll-up), whole-project operations (`project`), outline views (`outline`:
  visible rows, WBS codes, outline numbers, month bands, dependency lines),
  predecessor link notation (`links`), the editing commands of the planner
  (`editing`), undo/redo (`history`), MSPDI XML and POD documents (`export`),
  the planning-engine line protocol (`bridge`), the import helper's report
  (`import`), project paths (`paths`), the icon table (`icons`) and the sample
  plan (`sample`). Public functions state their behaviour in `requires` /
  `ensures`, and the laws of the library are public proof functions. Where a
  result comes from a platform rule (how `std::path` reads backslashes,
  colons and trailing separators) or from floating point, the contract states
  only the part that holds everywhere; the doc comments say what is left open.
- The program opens the project file named on its command line, or the
  bundled sample plan when none is given.
- `app/` is the egui desktop program around the library: windows and drawing,
  file and process I/O, JSON documents, and the floating-point work on
  completed fractions (progress roll-up, percentages).
- `tests/` runs the library on concrete values.

Completed fractions are `f32` values; the library carries them as bit
patterns (`progress_bits`) and leaves arithmetic on them to the program.
