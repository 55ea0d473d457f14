//! Verified core of Just Input: turning text into keyboard input units,
//! the key strokes that type them, the command-line grammar and the
//! decisions of the typing window.
pub mod cli;
pub mod hotkey;
pub mod input;
pub mod run;
pub mod session;
pub mod text;
pub mod timing;
