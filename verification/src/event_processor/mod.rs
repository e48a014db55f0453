//! From one decoded event to the store operations and downloads it calls
//! for.

pub mod guild;
pub mod message;
pub mod misc;
pub mod user;
