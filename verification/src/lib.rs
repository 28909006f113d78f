//! Streaming speech playback for romanized phonetic text.
//!
//! The crate holds the parts of the pipeline that can be reasoned about
//! without touching a socket or a sound card:
//!
//! * [`decoder`]: raw 16-bit little-endian PCM bytes to a sample buffer;
//! * [`stream`]: which inbound frames of the synthesis stream carry audio;
//! * [`session`]: the state machine that takes one play request from the
//!   first command to the reply;
//! * [`laws`]: what holds of every run of a session;
//! * [`command`]: the values that cross the command surface;
//! * [`error`]: the errors of the data store.
//!
//! Connecting, receiving and playing are left to the caller, which performs
//! the [`session::Action`]s it is handed and reports back what happened as
//! [`session::Event`]s.

pub mod command;
pub mod decoder;
pub mod error;
pub mod laws;
pub mod session;
pub mod stream;

pub use error::DataStoreError;
