//! A local shell reachable from a browser: a pseudo-terminal engine and the
//! decisions of the WebSocket bridge that relays bytes between a client and
//! the terminal.

pub mod pty;
pub mod ws;
