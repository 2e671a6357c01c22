//! Media players: the MPRIS model, which player is shown, what the panel
//! offers, and where cover art comes from.
pub mod player;
pub mod selection;
pub mod art;
pub mod art_cache;
pub mod controls;
pub mod state;
