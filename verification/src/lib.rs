//! A verified model of a screen-based game front end: a small application
//! state machine (main menu, in-game, game over), a declarative screen
//! builder that tags every element it creates with its owning mode, a
//! per-frame pointer-interaction reducer for buttons, and a bulk teardown
//! that removes a mode's elements when the mode is left.

pub mod state;
pub mod element;
pub mod screen;
pub mod reducer;
pub mod game;
