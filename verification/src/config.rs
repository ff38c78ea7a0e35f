//! Wallet configuration: the active network and the signing key name,
//! fixed at initialization, and the one-byte persistence of the network
//! selection across restarts.

use vstd::prelude::*;
use crate::types::Network;

verus! {

/// The signing key name used for a network: the local development key on
/// a regression network, the shared test key otherwise.
pub open spec fn spec_key_name(network: Network) -> Seq<char> {
    match network {
        Network::Regtest => "dfx_test_key"@,
        Network::Mainnet => "test_key_1"@,
        Network::Testnet => "test_key_1"@,
    }
}

/// Immutable per-process configuration, constructed once at startup and
/// passed into every component.
pub struct Config {
    pub network: Network,
    pub key_name: String,
}

impl Config {
    /// Builds the configuration for a network.
    pub fn new(network: Network) -> (c: Config)
        ensures
            c.network == network,
            c.key_name@ == spec_key_name(network),
    {
        let key_name: String = match network {
            Network::Regtest => "dfx_test_key".to_owned(),
            Network::Mainnet => "test_key_1".to_owned(),
            Network::Testnet => "test_key_1".to_owned(),
        };
        Config { network, key_name }
    }
}

/// The persisted one-byte code of a network selection.
pub open spec fn spec_network_code(network: Network) -> u8 {
    match network {
        Network::Mainnet => 0,
        Network::Testnet => 1,
        Network::Regtest => 2,
    }
}

/// Encodes the network selection for persistence across restarts.
pub fn network_code(network: Network) -> (r: u8)
    ensures
        r == spec_network_code(network),
{
    match network {
        Network::Mainnet => 0,
        Network::Testnet => 1,
        Network::Regtest => 2,
    }
}

/// Restores a persisted network selection; `None` exactly on a byte no
/// network encodes to.
pub fn parse_network_code(code: u8) -> (r: Option<Network>)
    ensures
        match r {
            Some(n) => spec_network_code(n) == code,
            None => code > 2,
        },
        forall|n: Network| spec_network_code(n) == code ==> r == Some(n),
{
    match code {
        0 => Some(Network::Mainnet),
        1 => Some(Network::Testnet),
        2 => Some(Network::Regtest),
        _ => None,
    }
}

} // verus!
