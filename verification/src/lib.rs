//! Motion-control core of a maze-solving micromouse robot: move planning,
//! move execution state machines, navigation strategies and the binary
//! telemetry protocol, with machine-checked contracts.

pub mod battery;
pub mod bot;
pub mod bytes;
pub mod command;
pub mod config;
pub mod control;
pub mod distance;
pub mod grid;
pub mod link;
pub mod lists;
pub mod maze;
pub mod mouse;
pub mod moves;
pub mod msgid;
pub mod msgs;
pub mod navigate;
pub mod plan;
pub mod random;
pub mod strategies;
pub mod stream;
pub mod uart;
