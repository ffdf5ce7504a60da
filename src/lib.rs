pub mod args;
pub mod ffmpeg;
pub mod logger;
pub mod text;
pub mod utils;
