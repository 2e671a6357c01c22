//! The wallpaper daemon: its command line, and when it looks again.
pub mod settle;
pub mod cli;
pub mod state;
pub mod image;
pub mod decode;
pub mod render;
pub mod rotation;
