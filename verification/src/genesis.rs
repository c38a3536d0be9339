//! Which genesis block a node commits at startup.
use vstd::prelude::*;

verus! {

/// What decides a test network's genesis block.
#[derive(Clone, Copy, Debug, PartialEq, Eq, Structural)]
pub struct TestnetGenesisParameters {
    /// The network's parameters carry a generated genesis block.
    pub has_genesis_block: bool,
    /// The network is Regtest.
    pub is_regtest: bool,
}

/// A Zcash network, as far as its genesis block goes.
#[derive(Clone, Copy, Debug, PartialEq, Eq, Structural)]
pub enum Network {
    /// Mainnet.
    Mainnet,
    /// The default Testnet, Regtest, or a custom test network.
    Testnet(TestnetGenesisParameters),
}

/// Where the genesis block committed at startup comes from.
#[derive(Clone, Copy, Debug, PartialEq, Eq, Structural)]
pub enum GenesisBlockSource {
    /// The genesis block stored in the network's parameters.
    NetworkParameters,
    /// The hard-coded Regtest genesis block.
    Regtest,
}

/// The genesis block to commit at startup: none on Mainnet and the default
/// Testnet, which receive it through checkpoint sync; the stored one when the
/// network's parameters carry one; else the hard-coded block on Regtest.
pub fn genesis_block_for_network(network: &Network) -> (r: Option<GenesisBlockSource>)
    ensures
        r == match *network {
            Network::Mainnet => None,
            Network::Testnet(params) => if params.has_genesis_block {
                Some(GenesisBlockSource::NetworkParameters)
            } else if params.is_regtest {
                Some(GenesisBlockSource::Regtest)
            } else {
                None
            },
        },
{
    match network {
        Network::Mainnet => None,
        Network::Testnet(params) => {
            if params.has_genesis_block {
                return Some(GenesisBlockSource::NetworkParameters);
            }
            if params.is_regtest {
                return Some(GenesisBlockSource::Regtest);
            }
            None
        },
    }
}

} // verus!
