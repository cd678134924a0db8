//! A Chord-style distributed hash table: identifier-ring arithmetic, the
//! finger table and successor list of a node, the request and response
//! vocabulary, and the handlers that decide how a node answers each message
//! and which keys it owns.
//!
//! The library never touches the network. Every handler takes the node's
//! state and a message, changes the state, and hands back the messages to be
//! sent; whoever embeds the library delivers them. The periodic tasks are
//! step functions of the same kind: they say whom to probe and what to send,
//! and are told how the probe ended.
//!
//! - [`ring`]: arithmetic on a ring of any width, and the laws of intervals
//!   and ownership.
//! - [`chord`]: the ring this library runs on, identifiers of addresses and
//!   keys, and the periodic tasks.
//! - [`fingertable`], [`storage`]: the two tables of a node.
//! - [`protocols`]: the messages.
//! - [`state`]: the state of a node as a mathematical value, what each
//!   message does to it, and the laws of joining, migration and shutdown.
//! - [`node`]: the node itself.
//! - [`interaction`]: the dialogue on the terminal.
//! - [`text`]: numbers as decimal text.

pub mod chord;
pub mod fingertable;
pub mod interaction;
pub mod node;
pub mod protocols;
pub mod ring;
pub mod state;
pub mod storage;
pub mod text;
