pub mod character;
pub mod ocr;
pub mod preset;
pub mod timer;
pub mod window;
