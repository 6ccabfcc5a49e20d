//! Typed point-to-point channels over byte transports, with the protocol kept
//! apart from the sockets.
//!
//! A channel moves values of one fixed layout between two peers. Every value
//! travels as one frame: a block of bytes whose length is fixed by the type.
//! This crate holds the part of such a channel that can be reasoned about:
//! how values become frames and frames become values, how frames are
//! reassembled from what a transport delivers, the handshake that compares the
//! layouts of both ends, and the rules that turn transport events into
//! results. It performs no I/O itself. A driver owns the socket, carries out
//! the reads and writes that an endpoint asks for and reports what happened.

pub mod array;
pub mod bytes;
pub mod connection;
pub mod error;
pub mod layout;
pub mod packet;
pub mod frame;
pub mod handshake;
pub mod id;
pub mod transport;

