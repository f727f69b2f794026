//! Streams a pre-loaded animation to a pixel-drawing server.
//!
//! This crate holds the decisions of the streaming engine as verified code.
//! Sockets, threads and timers live in the program built around it.
//!
//! - [`pixel`], [`frame`], [`sequence`]: the animation, built once and then
//!   only read.
//! - [`decimal`], [`order`], [`protocol`]: one send of a frame, as the bytes
//!   to write to a connection.
//! - [`coverage`], [`wire`]: what holds of every send.
//! - [`animator`], [`gate`]: which frame is current, and when playback
//!   starts.
//! - [`task`], [`worker`]: the state machines of a streaming task and of a
//!   worker's connection pool.

pub mod animator;
pub mod ascii;
pub mod coverage;
pub mod decimal;
pub mod frame;
pub mod gate;
pub mod order;
pub mod pixel;
pub mod protocol;
pub mod sequence;
pub mod task;
pub mod wire;
pub mod worker;
