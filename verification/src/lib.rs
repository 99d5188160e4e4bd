//! Live-lobby logic of a multiplayer game site: the session that owns the one
//! connection to the server, and the engine that groups and orders the open
//! challenges for display.

pub mod challenge;
pub mod connection;
pub mod grouping;
pub mod lobby;
pub mod online;
pub mod ordering;
pub mod seq_facts;
pub mod sorting;
