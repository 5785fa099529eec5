//! TCP: sequence space arithmetic, segments, connection states and the connection table.

pub mod connections;
pub mod flags;
pub mod payload;
pub mod pending_segment;
pub mod send_info;
pub mod reply;
pub mod segment;
pub mod seq_space;
pub mod state;
pub mod timers;
pub mod in_flight;
