pub mod text;
pub mod storage;
pub mod commands;
pub mod long_audio;
pub mod managers;
pub mod delivery;
