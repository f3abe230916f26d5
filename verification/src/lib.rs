//! The core of a peer-to-peer voice chat client: the decisions it takes
//! between a signaling server, a session engine and the audio devices.
//!
//! The client joins a signaling server, learns which peers share its room,
//! negotiates a direct media session with each of them by offer, answer and
//! ICE candidates, and streams audio to every connected peer. This crate holds
//! the state and the rules of that: it performs no input or output itself.
//! Each operation takes what happened as plain values, changes the state, and
//! returns what is to be done next; the caller reads the socket, drives the
//! engine and the devices, and reports back.
//!
//! - [`commands`], [`codec`] and [`json`]: the envelopes of the signaling
//!   channel and their wire form.
//! - [`signal`]: what a read of the channel gives, and the wait for an
//!   acknowledgement.
//! - [`socket`]: the receive loop, one event at a time.
//! - [`directory`] and [`rooms`]: the known rooms and their members; creating
//!   and joining a room.
//! - [`peer`]: the per-peer connection state machine, the table that owns
//!   every peer's entry, and what holds of every run of it.
//! - [`audio`] and [`media`]: packet numbering and the capture path that feeds
//!   every connected peer; what to do with what arrives.
//! - [`engine`]: the session engine seen as plain values, and the few pure
//!   functions of it that the rules consult.
//! - [`config`], [`input`], [`text`], [`ids`], [`error`], [`session`]: the
//!   local identity, key presses, typed text, lists of ids, the kinds of
//!   failure, and the state of one session.

pub mod audio;
pub mod codec;
pub mod commands;
pub mod config;
pub mod directory;
pub mod engine;
pub mod error;
pub mod ids;
pub mod input;
pub mod json;
pub mod media;
pub mod peer;
pub mod rooms;
pub mod session;
pub mod signal;
pub mod socket;
pub mod text;
