//! A terminal hangman game, verified.
//!
//! The library holds the game's logic: the secret word as a sequence of
//! per-letter reveal flags, guess evaluation, win and lose detection, the
//! parsing of the gallows frame asset, and the composition of the rendered
//! status block. Reading files and prompting the player live outside the
//! library.

pub mod frames;
pub mod session;
pub mod text;
pub mod word;
