pub mod hotkey;
pub mod screenshot;
pub mod window;
