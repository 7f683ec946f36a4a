//! A decentralized name-to-address directory: peers publish, discover, and
//! resolve named entries over a peer-to-peer overlay. This crate holds the
//! verified core — entry versioning and conflict resolution, permission-gated
//! writes, the message-handling engine, periodic full-state sync payloads,
//! and cross-namespace federation — while transport, discovery, and the HTTP
//! surface live outside it.

pub mod entry;
pub mod perm;
pub mod resolve;
pub mod store;
pub mod messages;
pub mod gateway;
pub mod engine;
mod clock;
pub mod laws;
