//! The object model of a collaborative document: object data and its
//! operations, observers that turn applied operations into patches, and the
//! state of synchronisation with a peer.

pub mod types;
pub mod op_tree;
pub mod object_data;
pub mod op_observer;
pub mod sync_state;
pub mod c_sync_state;
