# ijevim

A modal terminal text editor (Vim and Emacs keymaps, a git review mode)
whose core is written in Verus and verified.

- `src/` is the library: the text buffer over a rope, the undo tree, registers
  and kill ring, window layout, Normal/Insert/Visual/Replace mode editing
  (text objects and pasting included), Emacs commands, `:` commands (substitution included), search, review-mode
  diff parsing, hunk patches, annotations and their JSON form, the
  side-by-side diff rows, the dashboard layout, the screen rows of each
  window with its line numbers and selection, syntax colouring and the
  configuration with its warnings. Each public function states what it does
  in its `ensures`; laws that relate several functions (undo then redo,
  annotation JSON round trip, and others) are public proof functions.
- `app/` is the program around it: the terminal, files, git processes,
  plugins and the event loop.
- `tests/` runs the library on concrete inputs.
