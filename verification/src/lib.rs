//! A small embedded remote-procedure-call core.
//!
//! The crate multiplexes one byte-oriented transport among typed
//! request/response endpoints and one-way topics:
//!
//! - [`varint`] and [`codec`] give the compact variable-length wire
//!   encoding; decoding is total and signals malformed bytes with a
//!   typed error instead of failing.
//! - [`key`] derives the fixed-width routing key of a path, and
//!   [`registry`] keeps the table of registered endpoints and topics,
//!   rejecting key collisions when the table is built.
//! - [`frame`] is the unit exchanged over the transport: a key, a
//!   sequence number and an encoded payload.
//! - [`pool`] bounds how many instances of a pooled handler may be in
//!   flight at once.
//! - [`sender`] is the fan-in queue that serializes outbound frames,
//!   and [`server`] is the dispatch step the receive loop drives.
//! - [`counter`], [`settings`], [`device`] and [`loopback`] hold the
//!   small pieces of application state the handlers and periodic
//!   tasks work on.

pub mod codec;
pub mod counter;
pub mod device;
pub mod frame;
pub mod key;
pub mod loopback;
pub mod pool;
pub mod registry;
pub mod sender;
pub mod server;
pub mod settings;
pub mod varint;
