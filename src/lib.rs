//! Typed packet transport: framing, type registry, peer directory and the
//! decisions of the packet manager, verified with Verus.

pub mod frame;
pub mod errors;
pub mod registry;
pub mod peers;
pub mod receive;
pub mod negotiate;
pub mod manager;
pub mod messages;
