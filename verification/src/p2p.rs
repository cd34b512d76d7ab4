//! The peer-to-peer side: who is around, and files going out and coming in.
pub mod chunks;
pub mod events;
pub mod identity;
pub mod incoming;
pub mod node;
pub mod peers;
pub mod protocol;
pub mod receive;
