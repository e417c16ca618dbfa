//! The editing core of a modal, keyboard-driven text editor: positions,
//! movements and selections over a text buffer, and the state machine that
//! turns key presses into buffer edits.

pub mod change;
pub mod command;
pub mod edot;
pub mod event;
pub mod location;
pub mod screen;
pub mod text;
