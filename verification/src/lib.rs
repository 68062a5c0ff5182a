//! Clockery: a multi-timezone clock.  The verified core of the program lays out
//! the clock faces, builds every text the faces show, animates the snow, and
//! reads and writes the configuration; the window, the fonts and the files are
//! handled by the program around it.
pub mod clock;
pub mod config;
pub mod control;
pub mod geometry;
pub mod layout;
pub mod random;
pub mod snow;
pub mod text;
pub mod time;
