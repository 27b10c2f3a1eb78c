//! Secure messaging core of a peer-to-peer chat: hole-punch tuning, wire
//! messages and their binary form, per-peer connection bookkeeping, secret
//! phrases, key derivation and authenticated encryption of payloads, and what
//! is known of the machine's network.

pub mod aead;
pub mod buffer;
pub mod clock;
pub mod codec;
pub mod config;
pub mod connection;
pub mod factory;
pub mod identity;
pub mod keys;
pub mod netinfo;
pub mod route;
pub mod subnet;
pub mod text;
pub mod wire;
