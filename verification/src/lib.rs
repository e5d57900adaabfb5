//! A broadcast buffer: one growing byte stream, written by any number of
//! producers and replayed from its first byte to every consumer, however
//! late it joins.
//!
//! - [`stream`] holds the stream itself as a plain value: the bytes, the
//!   tally of active producers, and the operations on them, each with an
//!   exact contract.
//! - [`pipe`] holds the handle that threads share. It keeps the stream
//!   behind a reader-writer lock, and each handle has a cursor of its own.
//! - [`notify`] holds the signal on which a reader that has caught up
//!   sleeps until something changes.
//! - [`model`] describes a whole broadcast, with its producers and
//!   consumers, as a sequence of events, and [`laws`] proves what holds of
//!   every such sequence.

pub mod laws;
pub mod model;
pub mod notify;
pub mod pipe;
pub mod stream;
