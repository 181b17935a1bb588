//! A terminal typing game: words drift across the screen and the player
//! types them before they run off the edge.  This library holds the game's
//! rules and state changes; drawing, the keyboard and the clock belong to
//! the program that runs it.

pub mod text;
pub mod random;
pub mod word;
pub mod input_box;
pub mod word_holder;
pub mod game;
pub mod marquee;
