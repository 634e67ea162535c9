# horseshoe

The core of a foot-compatible Wayland terminal emulator, written in Verus:
every function of the library carries a `requires`/`ensures` contract that
Verus proves, and the properties that span several functions are stated as
public proof functions (named `law_*`).

## Layout

```
src/
  config/        foot.ini settings, key bindings, colours, command-line overrides
  renderer/      pixel rendering: cells, glyphs, cursor, selection, search bar,
                 preedit, background clearing and whole frames
  terminal/      cell styles and colours, the render state of a frame,
                 the state filled by the emulator's callbacks
  boxdraw.rs     procedural box-drawing and block-element glyphs
  selection.rs   selection ranges, word boundaries, search navigation
  paste.rs       bracketed paste and pipe reading decisions
  keymap.rs      XKB keysyms to keys, modifier sets
  font.rs        font file naming rules
  pty.rs         shell choice, environment, queued PTY writes
  num.rs         decimal formatting and scale arithmetic
  text.rs        string helpers shared by the parsers
app/             the program around the library: command line, files,
                 processes, font rasterization and floating-point geometry
tests/           tests of the library
```

Calls into outside crates (configparser, std) go through small trusted
wrappers. Where a result can be stated in a few lines the contract states
it; where it cannot, it is given a name (such as `ini_parse_lines`, what
configparser reads from a text) and the verified code is exact over that
name. Everything else in `src/` is verified.
