//! The signaling socket.

pub mod listen;
