//! The network layer: node records, peer-to-peer message types, message
//! queues with priorities, broadcasting and node management. Addresses are
//! kept as text; sockets, connections and timers live with the caller.
use vstd::prelude::*;

use crate::execution::AtomicDecisionUnit;
use crate::governance::GovernanceProposal;
use crate::text::clone_strings;

pub mod discovery;
pub mod message;
pub mod node;

verus! {

/// How a node joins the network.
#[derive(Debug)]
pub struct NetworkConfig {
    /// The address to listen on, as `host:port`.
    pub listen_addr: String,
    pub max_connections: usize,
    /// Addresses of the nodes to contact first, as `host:port`.
    pub boot_nodes: Vec<String>,
    pub network_id: u64,
}

impl Default for NetworkConfig {
    fn default() -> (c: Self)
        ensures
            c.listen_addr@ == "0.0.0.0:8080"@,
            c.max_connections == 100,
            c.boot_nodes@.len() == 0,
            c.network_id == 1,
    {
        NetworkConfig {
            listen_addr: String::from_str("0.0.0.0:8080"),
            max_connections: 100,
            boot_nodes: Vec::new(),
            network_id: 1,
        }
    }
}

/// What nodes tell each other.
#[derive(Debug)]
pub enum NetworkMessage {
    Adu(AtomicDecisionUnit),
    Proposal(GovernanceProposal),
    DiscoveryRequest(DiscoveryRequest),
    DiscoveryResponse(DiscoveryResponse),
    Ping(u64),
    Pong(u64),
    Transaction(Vec<u8>),
    BlockProposal(Vec<u8>),
}

/// A request for known nodes.
#[derive(Debug)]
pub struct DiscoveryRequest {
    pub requester_id: String,
    pub network_id: u64,
}

/// The nodes a peer knows of.
#[derive(Debug)]
pub struct DiscoveryResponse {
    pub nodes: Vec<NodeInfo>,
    pub timestamp: u64,
}

/// A node of the network.
#[derive(Debug)]
pub struct NodeInfo {
    pub id: String,
    /// Its address, as `host:port`.
    pub address: String,
    pub capabilities: Vec<String>,
    pub version: String,
    pub last_seen: u64,
}

impl Clone for NodeInfo {
    fn clone(&self) -> (r: Self)
        ensures
            r.id == self.id,
            r.address == self.address,
            r.capabilities@ == self.capabilities@,
            r.version == self.version,
            r.last_seen == self.last_seen,
    {
        NodeInfo {
            id: self.id.clone(),
            address: self.address.clone(),
            capabilities: clone_strings(&self.capabilities),
            version: self.version.clone(),
            last_seen: self.last_seen,
        }
    }
}

} // verus!
