pub mod sound;
pub mod text;
pub mod time;
