//! Session checkpoints: turn a recorded conversation session into a
//! checkpoint document, and find the session file that belongs to a
//! working directory.

pub mod types;
pub mod text;
pub mod clock;
pub mod size;
pub mod session;
pub mod extract;
pub mod laws;
