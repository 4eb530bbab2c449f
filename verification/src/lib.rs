//! The logic of a peer-to-peer chat: terminal nodes and browser nodes exchange messages by
//! gossip, and a relay node bridges them and keeps a history.
//!
//! - [`wire`] is the encoding of single fields, and [`message`] that of a chat message.
//! - [`chat`] is what all nodes agree on: limits, how a message is composed, and how gossiped
//!   bytes are identified.
//! - [`address`] and [`identity`] are the addresses and the keys of nodes.
//! - [`node`], [`web`] and [`relay`] say, for the three kinds of node, what is to be done
//!   about each event. Whoever runs a node performs the actions and reports the events.
//! - [`config`] holds the settings of the application.

pub mod address;
pub mod chat;
pub mod config;
pub mod identity;
pub mod message;
pub mod node;
pub mod relay;
pub mod web;
pub mod wire;
