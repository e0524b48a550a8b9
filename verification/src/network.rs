//! Networks a node instance can join, and the listen interfaces services
//! bind to.

use vstd::prelude::*;
use crate::text::dec_digits;

verus! {

/// A listen interface: a port bound either on all addresses or on loopback
/// only.
#[derive(Clone, Copy, PartialEq, Eq, Structural, Debug)]
pub enum Interface {
    Public(u16),
    Local(u16),
}

/// The textual address of an interface, as it appears on command lines.
pub open spec fn interface_text(i: Interface) -> Seq<char> {
    match i {
        Interface::Public(port) => "0.0.0.0:"@ + dec_digits(port as nat),
        Interface::Local(port) => "127.0.0.1:"@ + dec_digits(port as nat),
    }
}

impl Interface {
    /// The bound port.
    pub fn port(&self) -> (r: u16)
        ensures
            r == (match *self {
                Interface::Public(port) => port,
                Interface::Local(port) => port,
            }),
    {
        match self {
            Interface::Public(port) => *port,
            Interface::Local(port) => *port,
        }
    }

    /// Renders the interface as `address:port`.
    pub fn render(&self) -> (r: String)
        ensures
            r@ == interface_text(*self),
    {
        match self {
            Interface::Public(port) => {
                let mut out = String::from_str("0.0.0.0:");
                let digits = crate::text::u16_to_dec(*port);
                out.append(digits.as_str());
                out
            },
            Interface::Local(port) => {
                let mut out = String::from_str("127.0.0.1:");
                let digits = crate::text::u16_to_dec(*port);
                out.append(digits.as_str());
                out
            },
        }
    }
}

/// A network a node instance can join.
#[derive(Clone, Copy, PartialEq, Eq, Structural, Debug, Hash)]
pub enum Network {
    Mainnet,
    Testnet10,
    Testnet11,
}

impl Default for Network {
    fn default() -> (r: Network)
        ensures
            r == Network::Mainnet,
    {
        Network::Mainnet
    }
}

/// The name of the network, as it appears in unit names and paths.
pub open spec fn network_name(n: Network) -> Seq<char> {
    match n {
        Network::Mainnet => "mainnet"@,
        Network::Testnet10 => "testnet-10"@,
        Network::Testnet11 => "testnet-11"@,
    }
}

impl Network {
    /// The name of the network: `mainnet`, `testnet-10` or `testnet-11`.
    pub fn render(&self) -> (r: &'static str)
        ensures
            r@ == network_name(*self),
    {
        match self {
            Network::Mainnet => "mainnet",
            Network::Testnet10 => "testnet-10",
            Network::Testnet11 => "testnet-11",
        }
    }

    /// Every network, in declaration order.
    pub fn all() -> (r: Vec<Network>)
        ensures
            r@ == seq![Network::Mainnet, Network::Testnet10, Network::Testnet11],
    {
        let mut networks: Vec<Network> = Vec::new();
        networks.push(Network::Mainnet);
        networks.push(Network::Testnet10);
        networks.push(Network::Testnet11);
        proof {
            assert(networks@ =~= seq![Network::Mainnet, Network::Testnet10, Network::Testnet11]);
        }
        networks
    }
}

} // verus!
