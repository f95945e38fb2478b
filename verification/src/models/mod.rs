pub mod character;
pub mod config;
pub mod hotkey;
pub mod ocr;
pub mod preset;
