# texel

An ASCII art and landscape editor for the terminal, with vim-like modes, whose editing
logic is a library verified with Verus.

## Layout

- `src/` — the verified library:
  - `common/` — actions and their command words, modes, input events and key bindings,
    text parsing, the status line, file kinds, the gzip layer of scene files and sprite
    loading from text;
  - `components/` — the scene being edited (objects, bookmarks, the region being
    selected);
  - `resources/` — the editor state with its undo history and mode stack, the command line
    with history and completion, the color and symbol palettes, and the double buffered
    screen whose changed texels are written out;
  - `systems/` — the handlers of every action (selection, clipboard, editing, layout,
    scene and file requests), input events turned into actions per mode, history
    recording, and the renderers (scene, selected region, metadata overlay, status line);
  - `texel_types/` — sprites, texels, positions, bounds and scenes;
  - `exporters/` — plain text export;
  - `os/` — terminal escape sequences and terminal key presses mapped to input events.
- `app/` — the program: terminal set up, the event loop, files (reading and writing them,
  the RON text of scenes, text sprites, the configuration) and writing the screen's
  changes to the terminal.
- `tests/` — tests of the library.

Work with files is not done by the library: handlers return a request (save, export,
load, tutorial) that the program performs, handing the outcome back to the library.

## Usage

`texel [files]`

The help topics and the tutorial are read from a `help/` directory beside the program.
