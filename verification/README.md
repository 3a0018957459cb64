# tdriver

Pixel logic for a 64 x 48 monochrome screen, verified with Verus.

- `src/graphics.rs`: the screen model (`Screen`) and the ways of writing
  pixel data into it (`write_long`, `write_raw`, `write_line`), and the
  step-by-step sanity check that lights every pixel in turn.
- `src/doom3d.rs`: copying a frame of boolean pixels onto the screen.
- `src/raycaster.rs`: drawing raycaster columns from what each ray hit.
- `src/life.rs`: Conway's game of life on the screen grid.
- `src/tetris.rs`: the tetris playfield: the empty board, piece extents,
  the pseudo-random step and the clearing of full rows.
- `src/tetris_game.rs`: the tetris game's step function (collision, game
  over, spawning, moving and rotating, dropping the piece).
- `src/terraria.rs`: rendering the window of a block world around the player.
- `src/pong.rs`: the pong demo's game state and its step function.
- `app/`: the demo programs, run on a terminal (crossterm and tui) that
  stands in for the screen, and the floating-point part of the raycaster.
- `tests/`: tests of the library on concrete boards and frames.
