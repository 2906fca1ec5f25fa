//! A client for Cloudflare WARP: the rules of its MASQUE and WireGuard tunnels,
//! its userspace network stack and its SOCKS5 proxy, verified with Verus.

pub mod addr;
pub mod api;
pub mod cli;
pub mod codec;
pub mod config;
pub mod crypto;
pub mod ini;
pub mod manager;
pub mod proxy;
pub mod register;
pub mod socks;
pub mod table;
pub mod text;
pub mod tunnel;
pub mod vars;
