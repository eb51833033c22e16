//! A Morse code radio beacon: validates its settings, encodes a callsign into
//! keyed timing elements and decides, step by step, how the transmitter is
//! driven until a stop request is seen.

pub mod config;
pub mod morse;
pub mod timing;
pub mod scheduler;
pub mod cancel;
