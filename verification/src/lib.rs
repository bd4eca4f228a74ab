pub mod engine;
pub mod event;
pub mod eventqueue;
pub mod lifecycle;
pub mod pacing;
pub mod taskqueue;
