pub mod audio_files;
pub mod database;
pub mod hashing;
pub mod migrations;
pub mod models;
pub mod recovery;
pub mod repositories;
pub mod usage;
