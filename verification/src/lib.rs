//! Server-side core of a binary network game protocol: the command grammar
//! arena, the permission-aware compiler from grammar to the index-addressed
//! wire suggestion structure, and the per-connection lifecycle state machine.

pub mod address;
pub mod compile;
pub mod dispatcher;
pub mod lifecycle;
pub mod proto;
pub mod tree;
