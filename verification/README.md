# rake

A terminal snake game with a shop between rounds, written in Verus.

- `src/` is the verified model of the game: the field and its objects
  (`grid`), the snake (`snake`, `motion`), food (`food`), items and the shop
  (`item`, `shop`), what items do when they go off (`trigger`), collisions
  (`collision`), the text the screens compute (`display`), and a game in
  progress with the step that advances it (`sandbox`). Random numbers come
  from the `rand` crate through the small trusted wrappers in `rng` (and
  `grid::push_char` for `String::push`).
- `app/` is the program around it: the `cursive` screens, `rodio` audio,
  logging, the best-score file and the thread that steps a game every 150 ms
  and carries out what each step asks for.
- `tests/` runs the library on concrete games.
