//! A romanized-kana typing engine.
//!
//! Given a phrase written in kana, the engine takes Latin-alphabet keystrokes
//! one at a time and decides whether they spell one of the romanizations
//! accepted for that phrase.
//!
//! * [`dictionary`] holds the accepted romanizations of each kana unit.
//! * [`segment`] splits a phrase into typing units, longest key first.
//! * [`unit`] is one typing unit and the matcher that runs on it.
//! * [`round`] is the input engine: units, cursor, error flag, mistakes.
//! * [`theory`] proves what holds of every sequence of keystrokes and
//!   backspaces.
//! * [`display`] cuts the assumed romanization into stretches to draw.
//! * [`control`] decides what a menu choice and a key press lead to.
//! * [`questions`] holds phrases and the order a session takes them in.
//! * [`progress`] keeps the books on level and experience.
//! * [`clock`] declares the monotonic clock that times a round.
//!
//! Every executable function carries a contract over the mathematical models
//! of its arguments, and the contracts are proved. The exceptions are the
//! declarations in [`clock`] and [`questions`] that describe the clock and
//! the random generator: what they say is taken on trust.

pub mod clock;
pub mod control;
pub mod dictionary;
pub mod display;
pub mod progress;
pub mod questions;
pub mod round;
pub mod segment;
pub mod theory;
pub mod unit;
