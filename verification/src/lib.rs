pub mod text;
pub mod path;
pub mod xdg;
pub mod control;
pub mod hypr;
pub mod spawn;
pub mod config;
pub mod cli;
pub mod lock;
pub mod wallpaper;
pub mod bar;
pub mod media;
pub mod launcher;
pub mod file_uri;
pub mod raster;
pub mod audio;
