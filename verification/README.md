# canticlec_churn

A grid music sequencer: balls travel over a grid, bounce off squares, play
samples, and run the small programs written on the squares.

The crate is verified with Verus.

- `src/` is the library, every function of it verified: the program
  language (`programmer`, its lexing in `text` and `numeral`), the squares
  and their programs (`square`), the program editor and how it is drawn
  (`program_editor`, `editor_view`), the menus (`context_menu`,
  `square_menu`, `library_gui`), the libraries of functions and samples
  (`library`, `name_map`), the console (`console`), the grid's records of
  collisions (`sequencer`), and painting into the frame (`frame`,
  `renderer`).
- `app/` is the program around it: the window and its event loop, sound,
  files, and what runs on `f32` values (ball motion, running programs).
- `tests/` exercises the library.

Numbers in programs are kept as the text they were written in, and speeds
carried by the menus as the bits of their `f32`; the arithmetic on them is
the program's, not the library's.

Times (collision cooldowns, key repeat) are whole milliseconds on a clock
that `app/` keeps; the library only compares them.
