//! The manager of a tunnel: what its event loop decides.

pub mod backoff;
pub mod buffer;
pub mod commands;
pub mod dns_cache;
pub mod dns_ops;
pub mod load;
pub mod masque_io;
pub mod perf;
pub mod requests;
pub mod rounds;
pub mod runloop;
pub mod sockets;
pub mod stack_ops;
pub mod stream;
pub mod sweep;
pub mod transport;
pub mod tunables;
pub mod udp;

use crate::tunnel::dns::{dns_fault_text, DnsError, DnsFault};
use crate::tunnel::stack::{stack_fault_text, StackError, StackFault};
use vstd::prelude::*;

verus! {

/// Why a request to the manager failed.
#[derive(Debug)]
pub enum ManagerError {
    ChannelClosed,
    ResponseChannelClosed,
    NotConnected,
    Overloaded,
    Dns(DnsError),
    Stack(StackError),
}

/// A manager error as values.
pub enum ManagerFault {
    ChannelClosed,
    ResponseChannelClosed,
    NotConnected,
    Overloaded,
    Dns(DnsFault),
    Stack(StackFault),
}

impl View for ManagerError {
    type V = ManagerFault;

    open spec fn view(&self) -> ManagerFault {
        match self {
            ManagerError::ChannelClosed => ManagerFault::ChannelClosed,
            ManagerError::ResponseChannelClosed => ManagerFault::ResponseChannelClosed,
            ManagerError::NotConnected => ManagerFault::NotConnected,
            ManagerError::Overloaded => ManagerFault::Overloaded,
            ManagerError::Dns(e) => ManagerFault::Dns(e@),
            ManagerError::Stack(e) => ManagerFault::Stack(e@),
        }
    }
}

/// How a manager error reads.
pub open spec fn manager_fault_text(fault: ManagerFault) -> Seq<char> {
    match fault {
        ManagerFault::ChannelClosed => "manager channel closed"@,
        ManagerFault::ResponseChannelClosed => "manager response channel closed"@,
        ManagerFault::NotConnected => "tunnel not connected"@,
        ManagerFault::Overloaded => "manager overloaded"@,
        ManagerFault::Dns(fault) => "dns error: "@ + dns_fault_text(fault),
        ManagerFault::Stack(fault) => "stack error: "@ + stack_fault_text(fault),
    }
}

impl ManagerError {
    /// How the error reads.
    pub fn text(&self) -> (text: String)
        ensures
            text@ == manager_fault_text(self@),
    {
        match self {
            ManagerError::ChannelClosed => String::from_str("manager channel closed"),
            ManagerError::ResponseChannelClosed => String::from_str(
                "manager response channel closed",
            ),
            ManagerError::NotConnected => String::from_str("tunnel not connected"),
            ManagerError::Overloaded => String::from_str("manager overloaded"),
            ManagerError::Dns(e) => String::from_str("dns error: ").concat(e.text().as_str()),
            ManagerError::Stack(e) => String::from_str("stack error: ").concat(e.text().as_str()),
        }
    }
}

/// Each kind of fault reads with its own words.
pub proof fn how_manager_faults_read(fault: ManagerFault)
    ensures
        fault is NotConnected ==> manager_fault_text(fault) == "tunnel not connected"@,
        fault is Overloaded ==> manager_fault_text(fault) == "manager overloaded"@,
        fault is ChannelClosed ==> manager_fault_text(fault) == "manager channel closed"@,
        fault is ResponseChannelClosed ==> manager_fault_text(fault)
            == "manager response channel closed"@,
        fault matches ManagerFault::Dns(why) ==> manager_fault_text(fault) == "dns error: "@
            + dns_fault_text(why),
        fault matches ManagerFault::Stack(why) ==> manager_fault_text(fault) == "stack error: "@
            + stack_fault_text(why),
{
}

} // verus!
