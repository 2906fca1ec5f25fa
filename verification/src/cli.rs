//! What the program is asked to do.

use crate::socks::{SocksServerOptions, SocksServerWgOptions};
use vstd::prelude::*;

verus! {

/// How much is logged.
#[derive(Debug, Clone, Copy, PartialEq, Eq, Structural)]
pub enum LogLevel {
    Silent,
    Error,
    Warning,
    Info,
    Debug,
}

/// What the program is asked to do, and how it logs.
#[derive(Debug)]
pub struct Cli {
    pub log: LogLevel,
    pub disable_color: bool,
    pub timestamp: bool,
    pub command: Commands,
}

/// What the program is asked to do.
#[derive(Debug)]
#[allow(inconsistent_fields)]
pub enum Commands {
    /// Register a device.
    Register { mode: RegisterMode },
    /// Give a MASQUE device its key again, or a new one.
    Enroll { config: String, name: Option<String>, regen_key: bool },
    /// Start the proxy.
    Socks { mode: SocksMode },
}

/// What a device is registered for.
#[derive(Debug)]
pub enum RegisterMode {
    Masque {
        config: String,
        model: String,
        locale: String,
        name: Option<String>,
        jwt: Option<String>,
        accept_tos: bool,
    },
    Wg {
        config: String,
        model: String,
        locale: String,
        jwt: Option<String>,
        accept_tos: bool,
    },
}

/// The tunnel behind the proxy.
#[derive(Debug)]
pub enum SocksMode {
    Masque {
        bind: String,
        port: u16,
        config: String,
        username: Option<String>,
        password: Option<String>,
        dns: Vec<String>,
        mtu: u16,
        sni: String,
        connect_port: u16,
        keepalive: u64,
        initial_packet_size: u16,
    },
    Wg {
        bind: String,
        port: u16,
        config: String,
        username: Option<String>,
        password: Option<String>,
        dns: Vec<String>,
        mtu: u16,
    },
}

/// What the proxy is started with.
#[derive(Debug)]
pub enum SocksOptions {
    Masque(SocksServerOptions),
    Wg(SocksServerWgOptions),
}

impl SocksMode {
    /// What the proxy is started with.
    pub fn into_options(self) -> (options: SocksOptions)
        ensures
            match self {
                SocksMode::Masque {
                    bind,
                    port,
                    config,
                    username,
                    password,
                    dns,
                    mtu,
                    sni,
                    connect_port,
                    keepalive,
                    initial_packet_size,
                } => options == SocksOptions::Masque(
                    SocksServerOptions {
                        bind,
                        port,
                        config_path: config,
                        username,
                        password,
                        sni,
                        dns_servers: dns,
                        connect_port,
                        keepalive,
                        initial_packet_size,
                        mtu,
                    },
                ),
                SocksMode::Wg { bind, port, config, username, password, dns, mtu } => options
                    == SocksOptions::Wg(
                    SocksServerWgOptions {
                        bind,
                        port,
                        config_path: config,
                        username,
                        password,
                        dns_servers: dns,
                        mtu,
                    },
                ),
            },
    {
        match self {
            SocksMode::Masque {
                bind,
                port,
                config,
                username,
                password,
                dns,
                mtu,
                sni,
                connect_port,
                keepalive,
                initial_packet_size,
            } => SocksOptions::Masque(
                SocksServerOptions {
                    bind,
                    port,
                    config_path: config,
                    username,
                    password,
                    sni,
                    dns_servers: dns,
                    connect_port,
                    keepalive,
                    initial_packet_size,
                    mtu,
                },
            ),
            SocksMode::Wg { bind, port, config, username, password, dns, mtu } => SocksOptions::Wg(
                SocksServerWgOptions {
                    bind,
                    port,
                    config_path: config,
                    username,
                    password,
                    dns_servers: dns,
                    mtu,
                },
            ),
        }
    }
}

} // verus!
