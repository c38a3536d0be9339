use zebra_crosslink::genesis::{
    genesis_block_for_network, GenesisBlockSource, Network, TestnetGenesisParameters,
};

#[test]
fn genesis_block_comes_from_parameters_then_regtest_and_never_on_mainnet() {
    assert_eq!(genesis_block_for_network(&Network::Mainnet), None);
    let default_testnet = TestnetGenesisParameters {
        has_genesis_block: false,
        is_regtest: false,
    };
    assert_eq!(genesis_block_for_network(&Network::Testnet(default_testnet)), None);
    let regtest = TestnetGenesisParameters {
        has_genesis_block: false,
        is_regtest: true,
    };
    assert_eq!(
        genesis_block_for_network(&Network::Testnet(regtest)),
        Some(GenesisBlockSource::Regtest)
    );
    let custom = TestnetGenesisParameters {
        has_genesis_block: true,
        is_regtest: true,
    };
    assert_eq!(
        genesis_block_for_network(&Network::Testnet(custom)),
        Some(GenesisBlockSource::NetworkParameters)
    );
}
