pub mod api_models;
pub mod audio;
pub mod config;
pub mod daemon;
pub mod disk;
pub mod hotkey;
pub mod model;
pub mod paste;
pub mod popup;
pub mod settings;
pub mod state;
pub mod text;
pub mod transcribe;
