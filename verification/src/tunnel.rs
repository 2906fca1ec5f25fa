//! The tunnels to Cloudflare and what runs on top of them.

pub mod capsule;
pub mod dns;
pub mod h3;
pub mod masque;
pub mod net;
pub mod packet;
pub mod quic;
pub mod stack;
pub mod varint;
pub mod wireguard;
