//! What the bar shows and sends: Hyprland dispatchers and events.
pub mod hyprland;
pub mod rotated_text;
pub mod media_panel;
pub mod config;
