# terminal_games

The rules of a nine-game terminal arcade, written in Verus with their
contracts proved.

- `src/` is the verified library: key mapping, the decisions of the game loop
  and the menu, and the state, input handling, movement, collisions and scoring
  of Runner, Snake, Tetris, Space Invaders and Minesweeper, plus the integer
  rules of Bricks, Dino, Flappy Bird and Pong (walls, brick hits, obstacle
  kinds, gap sizes, score keeping). Each game state has a mathematical model
  (`view`), every public function states its result over that model, and the
  laws of each game are public proof functions.
- `tests/` runs the library on concrete values.
- `app/` is the terminal program around it: `crossterm` input, `ratatui`
  drawing, the frame loop, the SQLite score table, and the ball and jump
  physics of Bricks, Dino, Flappy Bird and Pong, which move in fractional
  cells.
