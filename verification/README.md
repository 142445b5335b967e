# idle_dungeons

The UI logic of the Idle Dungeons game as a verified library: every function in
`src/` carries a contract that Verus proves.

- `src/` — the library (Verus). Texts are built as character sequences and
  specified by spec functions over `Seq<char>`; colours and font sizes are named
  theme entries (`UiTone`, `FontRole`).
- `tests/` — runtime tests against the compiled library.
- `app/` — renderer-side glue in plain Rust: the fractional timers of the inspect
  fade, palette values and float formatting.
