//! The lock screen: its command line, and how hyprlock is started and watched.
pub mod cli;
pub mod spawn;
pub mod run;
pub mod compose;
