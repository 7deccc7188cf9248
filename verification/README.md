# gui_nvim

The logic of a GPU-accelerated Neovim GUI, written in Verus and proved
against its contracts, with a thin program around it.

## Layout

- `src/editor/` – the editor model built from Neovim's redraw events:
  cells, grids (resize, scroll, `grid_line`), highlight definitions, the
  bitmap of dirty rows, and the state that holds them all.
- `src/bridge/` – MessagePack values, the decoder of `redraw`
  notifications into events, the commands sent to Neovim, and where the
  Neovim executable is looked for.
- `src/input/` – key presses in Neovim's key notation, mouse buttons and
  modifiers, and the input handler that turns window events into commands.
- `src/renderer/` – what is drawn for each cell and for the cursor (colors,
  glyph, decoration lines), glyph atlas packing, the glyph and shaping
  caches, text runs of a row, the split of a text among font faces,
  OpenType features, the Nerd Font codepoint ranges, the choice of present
  mode, batch sizing and quad flags.
- `src/cli.rs`, `src/config.rs` – the command line (parsed by clap) and the
  `guifont` option.
- `app/` – the program: argument and configuration handling, the Neovim
  session (tokio, nvim-rs), window-event conversion (winit), and the
  float computations of drawing.
- `tests/` – tests of the library.

Verification: every function in `src/` that computes something carries a
contract (the only ones without are the two that register embedded fonts,
which do nothing on these platforms); the laws that
relate several calls (for example, reading back what was written, or that
resizing a grid up and back down keeps it) are public proof functions named
`law_*`.
