//! Wire protocol and session rules of a terminal-sharing service.
//!
//! A client forwards keystrokes and window-size changes to a server that owns
//! a pseudo-terminal with a shell attached; the server streams the shell's
//! output back. This crate holds the parts of that service that are pure
//! computation: the message encoding, the length-prefixed framing, and the
//! decisions the two forwarding loops take on every event. Opening
//! terminals, starting processes and moving bytes is left to the caller.
//!
//! - [`msgs`]: the messages a client sends.
//! - [`endian`]: numbers as bytes.
//! - [`wire`]: how a message is written out and read back.
//! - [`frame`]: how a written message is framed, and how frames are taken
//!   off a buffer that fills piece by piece.
//! - [`stream`]: what a reader gets out of a whole stream of frames, with
//!   the laws that tie it to what was sent.
//! - [`client`], [`server`]: the two sides of a session as state machines.
//! - [`forwarder`], [`write_all`], [`attempt`]: forwarding, writing and
//!   retrying through ends that may not be ready.
//! - [`buffer`]: what is taken on trust about the `bytes` crate.

pub mod attempt;
pub mod buffer;
pub mod client;
pub mod endian;
pub mod errors;
pub mod evented_file;
pub mod fd;
pub mod forwarder;
pub mod frame;
pub mod msgs;
pub mod server;
pub mod session;
pub mod stream;
pub mod wire;
pub mod write_all;
