# dat0_ui

The logic of dat0's desktop interface, verified with Verus: what its panels
compute, decide and say, kept apart from the windowing that draws them.

- `src/` is the library. Each module holds one surface's model (the import
  wizard, the connections panel, the AI panel, the charts panel, the grid's
  edits, the command palette, …) with its contracts, and the laws that relate
  its operations as public proof functions. Text shown to the user comes
  from a `Catalog` of translations passed in.
- `src/clipboard.rs` and `src/tsv.rs` are the clipboard: the system one
  through `arboard` when the desktop has one, a slot inside the process when
  it has not, and cells carried as tab-separated text.
- `app/` is what Verus does not see: the process-wide clipboard, the file
  system side of crash recovery, and the layout arithmetic in floating-point
  pixels.
- `tests/` runs the library on concrete values.
