//! The decision logic of a two-machine mouse, clipboard and file share.

pub mod actor;
pub mod actor_laws;
pub mod clip_laws;
pub mod clipboard;
pub mod connection;
pub mod desk_laws;
pub mod digest;
pub mod discovery;
pub mod drag;
pub mod effects;
pub mod event;
pub mod folder_laws;
pub mod inbox;
pub mod incoming;
pub mod incoming_laws;
pub mod ipc;
pub mod keyboard;
pub mod names;
pub mod outgoing;
pub mod pairing;
pub mod proto;
pub mod receive;
pub mod receiving_laws;
pub mod send_tree;
pub mod sending_laws;
pub mod shared_laws;
pub mod table;
pub mod text;
pub mod transfer_laws;
pub mod tray;
pub mod tree_laws;
pub mod trust;
pub mod tuning;
pub mod walk;
pub mod walk_laws;
