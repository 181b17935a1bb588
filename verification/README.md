# typing_game

A terminal typing game. Words drift across the screen, one column per
second and one per key press; typing a word and pressing space takes it
out of play and scores two points. A word that reaches the right edge
ends the game; clearing every word wins it.

- `src/` is the verified library: splitting the word file into words
  (`text`), the words and the input box (`word`, `input_box`), the words in
  play and to come (`word_holder`), the game's reaction to keys and clock
  ticks (`game`), and a simpler scrolling variant (`marquee`). Random
  choices go through `random`.
- `app/` is the terminal program around it: it reads `word.txt`, the
  keyboard and the terminal size, runs the clock, and draws with termion.
  `app marquee` runs the scrolling variant.
- `tests/` exercises the library on concrete games.
