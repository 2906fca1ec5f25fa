//! The proxy's settings.

use crate::vars::Vars;
use vstd::prelude::*;

verus! {

/// The proxy's settings.
#[derive(Debug, Clone, Copy)]
pub struct SocksTunables {
    /// Seconds in which a connection must be made.
    pub connect_timeout: u64,
    /// Seconds after which an idle connection ends.
    pub idle_timeout: u64,
    /// Seconds in which a remote must connect.
    pub bind_accept_timeout: u64,
    /// Clients that are served at once.
    pub max_concurrent_connections: usize,
    /// Bytes that are read from a client at once.
    pub tcp_read_buffer_size: usize,
    /// Bytes that a packet from a client may have.
    pub udp_socket_buffer_size: usize,
    /// Seconds after which the fragments of a packet are given up.
    pub udp_frag_timeout: u64,
    /// Fragments that a packet may have, and one more.
    pub udp_frag_max_count: usize,
    /// Milliseconds between two attempts to connect.
    pub connection_attempt_delay: u64,
}

/// The number in a variable, or the one that stands in where it is missing or zero.
pub open spec fn positive_or(vars: &Vars, name: Seq<char>, default: nat) -> nat {
    match vars.number(name, usize::MAX as nat) {
        Some(n) => if n > 0 {
            n
        } else {
            default
        },
        None => default,
    }
}

fn env_positive(vars: &Vars, name: &str, default: usize) -> (n: usize)
    ensures
        n == positive_or(vars, name@, default as nat),
{
    match vars.read_usize(name) {
        Some(n) => if n > 0 {
            n
        } else {
            default
        },
        None => default,
    }
}

impl Default for SocksTunables {
    fn default() -> (tunables: SocksTunables)
        ensures
            tunables.connect_timeout == 30,
            tunables.idle_timeout == 300,
            tunables.bind_accept_timeout == 60,
            tunables.max_concurrent_connections == 1024,
            tunables.tcp_read_buffer_size == 65536,
            tunables.udp_socket_buffer_size == 65536,
            tunables.udp_frag_timeout == 5,
            tunables.udp_frag_max_count == 128,
            tunables.connection_attempt_delay == 250,
    {
        SocksTunables {
            connect_timeout: 30,
            idle_timeout: 300,
            bind_accept_timeout: 60,
            max_concurrent_connections: 1024,
            tcp_read_buffer_size: 64 * 1024,
            udp_socket_buffer_size: 64 * 1024,
            udp_frag_timeout: 5,
            udp_frag_max_count: 128,
            connection_attempt_delay: 250,
        }
    }
}

impl SocksTunables {
    /// The settings that the environment asks for.
    pub fn from_env(vars: &Vars) -> (tunables: SocksTunables)
        ensures
            tunables.connect_timeout == vars.number_or(
                "USQUE_SOCKS_CONNECT_TIMEOUT_SECS"@,
                u64::MAX as nat,
                30,
            ),
            tunables.idle_timeout == vars.number_or(
                "USQUE_SOCKS_IDLE_TIMEOUT_SECS"@,
                u64::MAX as nat,
                300,
            ),
            tunables.bind_accept_timeout == vars.number_or(
                "USQUE_SOCKS_BIND_ACCEPT_TIMEOUT_SECS"@,
                u64::MAX as nat,
                60,
            ),
            tunables.max_concurrent_connections == positive_or(
                vars,
                "USQUE_MAX_CONNECTIONS"@,
                1024,
            ),
            tunables.tcp_read_buffer_size == positive_or(
                vars,
                "USQUE_SOCKS_TCP_BUFFER_SIZE"@,
                65536,
            ),
            tunables.udp_socket_buffer_size == positive_or(
                vars,
                "USQUE_SOCKS_UDP_BUFFER_SIZE"@,
                65536,
            ),
            tunables.udp_frag_timeout == vars.number_or(
                "USQUE_SOCKS_UDP_FRAG_TIMEOUT_SECS"@,
                u64::MAX as nat,
                5,
            ),
            tunables.udp_frag_max_count == positive_or(
                vars,
                "USQUE_SOCKS_UDP_FRAG_MAX_COUNT"@,
                128,
            ),
            tunables.connection_attempt_delay == vars.number_or(
                "USQUE_SOCKS_CONN_ATTEMPT_DELAY_MS"@,
                u64::MAX as nat,
                250,
            ),
    {
        SocksTunables {
            connect_timeout: vars.env_u64("USQUE_SOCKS_CONNECT_TIMEOUT_SECS", 30),
            idle_timeout: vars.env_u64("USQUE_SOCKS_IDLE_TIMEOUT_SECS", 300),
            bind_accept_timeout: vars.env_u64("USQUE_SOCKS_BIND_ACCEPT_TIMEOUT_SECS", 60),
            max_concurrent_connections: env_positive(vars, "USQUE_MAX_CONNECTIONS", 1024),
            tcp_read_buffer_size: env_positive(vars, "USQUE_SOCKS_TCP_BUFFER_SIZE", 64 * 1024),
            udp_socket_buffer_size: env_positive(vars, "USQUE_SOCKS_UDP_BUFFER_SIZE", 64 * 1024),
            udp_frag_timeout: vars.env_u64("USQUE_SOCKS_UDP_FRAG_TIMEOUT_SECS", 5),
            udp_frag_max_count: env_positive(vars, "USQUE_SOCKS_UDP_FRAG_MAX_COUNT", 128),
            connection_attempt_delay: vars.env_u64("USQUE_SOCKS_CONN_ATTEMPT_DELAY_MS", 250),
        }
    }
}

/// How many clients are served at once.
pub fn max_concurrent_connections(vars: &Vars) -> (n: usize)
    ensures
        n == positive_or(vars, "USQUE_MAX_CONNECTIONS"@, 1024),
        n > 0,
{
    SocksTunables::from_env(vars).max_concurrent_connections
}

/// A variable counts if it is set to a number that is not zero; otherwise the usual number does.
pub proof fn zero_does_not_count(vars: Vars, name: Seq<char>, default: nat)
    ensures
        ({
            let set = vars.number(name, usize::MAX as nat);
            &&& set is None || set == Some(0nat) ==> positive_or(&vars, name, default) == default
            &&& set is Some && set != Some(0nat) ==> positive_or(&vars, name, default) == set->0
        }),
{
}

} // verus!
