pub mod scheduler;
pub mod timer_engine;
pub mod timer_state;
