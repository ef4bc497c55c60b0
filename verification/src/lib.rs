pub mod app;
pub mod config;
pub mod database;
pub mod export;
pub mod format;
pub mod laws;
pub mod layout;
pub mod listing;
pub mod message;
pub mod text;
