//! The verified core of a peer-to-peer messenger.
//!
//! Everything here computes on plain values. Sockets, files, the terminal
//! and the clock's ticks belong to the program around the library, which
//! asks it what to do next and tells it what happened.
//!
//! - [`envelope`], [`network`], [`bytes`]: messages and their wire formats.
//! - [`messenger_core`], [`id_map`], [`ingress`]: the message store and what
//!   arriving envelopes do to it.
//! - [`delivery`], [`outbound`], [`pending_outbox`], [`retry`]: sending,
//!   tracking and retrying.
//! - [`server`], [`sessions`], [`transport`], [`gateway`]: sessions, gossip
//!   frames, relay and ports.
//! - [`peer`], [`identity`], [`hash`], [`paths`], [`dht_snapshot`],
//!   [`bootstrap`], [`clock`]: who the node is and whom it knows.
//! - [`cli`]: the command line.
//! - [`app_state`], [`keys`], [`chat`], [`view`], [`theme`]: the terminal
//!   interface.
//! - [`text`], [`order`]: text building and splitting, parts of sequences.

pub mod app_state;
pub mod bootstrap;
pub mod bytes;
pub mod chat;
pub mod cli;
pub mod clock;
pub mod delivery;
pub mod dht_snapshot;
pub mod envelope;
pub mod gateway;
pub mod hash;
pub mod id_map;
pub mod identity;
pub mod ingress;
pub mod keys;
pub mod messenger_core;
pub mod network;
pub mod order;
pub mod outbound;
pub mod paths;
pub mod peer;
pub mod pending_outbox;
pub mod retry;
pub mod server;
pub mod sessions;
pub mod text;
pub mod theme;
pub mod transport;
pub mod view;
