//! The service's configuration.
use vstd::prelude::*;

verus! {

/// The bitcoin network the service follows.
#[derive(Debug, Clone, Copy, PartialEq, Eq, Structural)]
pub enum Network {
    Mainnet,
    Testnet,
    Regnet,
}

/// Where the service listens, the node it follows, and where it stores records.
#[derive(Debug)]
pub struct Settings {
    pub bind: String,
    pub node_ip: String,
    pub rpc_port: u16,
    pub rpc_username: String,
    pub rpc_password: String,
    pub zmq_port: u16,
    pub secret: String,
    pub db_path: String,
    pub network: Network,
    pub root_message: String,
}

} // verus!
