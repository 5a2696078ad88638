pub mod archive;
pub mod downloader;
pub mod engine;
pub mod history;
pub mod json;
pub mod laws;
pub mod models;
pub mod paths;
pub mod progress;
pub mod state;
pub mod text;
pub mod ytdlp;
