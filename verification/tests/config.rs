use mintlayer::chain::config::{
    Builder, ChainType, ConsensusUpgrade, EmissionPeriod, EmissionScheduleTabular, NetUpgrade,
    NetUpgradeError, NetUpgrades, UpgradeVersion,
};
use mintlayer::chain::transaction::Destination;
use mintlayer::chainstate::error::{SpendError, Spender, StateUpdateError, TxMainChainIndexError};
use mintlayer::primitives::{Amount, BlockDistance, BlockHeight, BlockId, SemVer, TxId, H256};
use mintlayer::storage::traits::Error as StorageError;
use mintlayer::sync::config::SyncConfig;

#[test]
fn chain_config_builder() {

    let config = Builder::new(ChainType::Mainnet).build();
    assert_eq!(config.chain_type, ChainType::Mainnet);
    assert!(config.height_checkpoint_data.is_empty());
    assert!(config.height_checkpoints().is_empty());
    let preimage = config.genesis_block_id_preimage().unwrap();
    assert_eq!(
        Some(preimage),
        mintlayer::codec::chain::block_id_preimage(config.genesis_block().header())
    );
    assert_eq!(config.address_prefix, "mtc");
    assert_eq!(config.magic_bytes(), &[0x1a, 0x64, 0xe5, 0xf1]);
    assert_eq!(config.p2p_port, 8978);
    assert_eq!(config.rpc_port, 15234);
    assert_eq!(config.version, SemVer::new(0, 1, 0));
    assert_eq!(config.blockreward_maturity, BlockDistance::new(500));
    assert_eq!(config.net_upgrades.upgrades.len(), 2);
    assert_eq!(
        config.net_upgrades.version_at_height(BlockHeight::new(0)).version,
        UpgradeVersion::ConsensusUpgrade(ConsensusUpgrade::IgnoreConsensus)
    );
    assert_eq!(
        config.net_upgrades.version_at_height(BlockHeight::new(7)).version,
        UpgradeVersion::ConsensusUpgrade(ConsensusUpgrade::PoW { initial_difficulty: 0x1d00ffff })
    );
    // 120 seconds between blocks: 262800 blocks in a year
    assert_eq!(config.emission_schedule.periods.len(), 11);
    assert_eq!(config.emission_schedule.periods[1].start, BlockHeight::new(262800));
    assert_eq!(
        config.emission_schedule.subsidy(BlockHeight::new(262799)),
        Amount::from_atoms(202 * 100_000_000_000)
    );
    assert_eq!(
        config.emission_schedule.subsidy(BlockHeight::new(262800)),
        Amount::from_atoms(151 * 100_000_000_000)
    );
    assert_eq!(config.emission_schedule.subsidy(BlockHeight::new(u64::MAX)), Amount::from_atoms(0));

    let test = Builder::test_chain();
    assert_eq!(test.net_upgrades, NetUpgrades::unit_tests());
    let custom = test
        .clone()
        .rpc_port(1)
        .p2p_port(2)
        .magic_bytes([9; 4])
        .coin_decimals(3)
        .address_prefix("xyz".to_string())
        .target_block_spacing(60)
        .genesis_unittest(Destination::PublicKey(vec![1]))
        .emission_schedule_tabular(EmissionScheduleTabular::new(
            Amount::from_atoms(5),
            vec![EmissionPeriod { start: BlockHeight::new(10), subsidy: Amount::from_atoms(1) }],
        ))
        .build();
    assert_eq!((custom.rpc_port, custom.p2p_port, custom.coin_decimals), (1, 2, 3));
    assert_eq!(custom.magic_bytes, [9; 4]);
    assert_eq!(custom.address_prefix, "xyz");
    assert_eq!(custom.emission_schedule.subsidy(BlockHeight::new(9)), Amount::from_atoms(5));
    assert_eq!(custom.emission_schedule.subsidy(BlockHeight::new(10)), Amount::from_atoms(1));
    let genesis = test.clone().build().genesis_block;
    assert_eq!(Builder::test_chain().genesis_custom(genesis.clone()).build().genesis_block, genesis);
    assert_ne!(custom.genesis_block, genesis);
    assert_ne!(Builder::new(ChainType::Regtest).build().magic_bytes, config.magic_bytes);

    let at = |h: u64| NetUpgrade { height: BlockHeight::new(h), version: UpgradeVersion::SomeUpgrade };
    assert!(NetUpgrades::initialize(vec![at(0), at(5), at(9)]).is_ok());
    assert_eq!(NetUpgrades::initialize(vec![]), Err(NetUpgradeError::NoUpgradeAtGenesis));
    assert_eq!(NetUpgrades::initialize(vec![at(1)]), Err(NetUpgradeError::NoUpgradeAtGenesis));
    assert_eq!(
        NetUpgrades::initialize(vec![at(0), at(5), at(5)]),
        Err(NetUpgradeError::HeightsNotRising)
    );
}

#[test]
fn sync_limits() {
    let config = SyncConfig::new();
    assert_eq!(config.max_retries, 3);
    assert_eq!(config.request_timeout_secs, 30);
    assert_eq!(config.inactivity_timeout_secs(), 300);
    assert!(!config.request_timed_out(100, 129));
    assert!(config.request_timed_out(100, 130));
    assert!(!config.request_timed_out(100, 50));
    assert!(!config.peer_inactive(100, 399));
    assert!(config.peer_inactive(100, 400));
}

#[test]
fn state_update_errors() {
    let spender = Spender::RegularInput(TxId::new(H256::zero()));
    let block = BlockId::new(H256::zero());
    assert_eq!(
        StateUpdateError::from(SpendError::AlreadySpent(spender)),
        StateUpdateError::DoubleSpendAttempt(spender)
    );
    assert_eq!(
        StateUpdateError::from(SpendError::AlreadyUnspent),
        StateUpdateError::InvariantBrokenAlreadyUnspent
    );
    assert_eq!(
        StateUpdateError::from(SpendError::OutOfRange { tx_id: None, source_output_index: 4 }),
        StateUpdateError::OutputIndexOutOfRange { tx_id: None, source_output_index: 4 }
    );
    assert_eq!(
        StateUpdateError::from(TxMainChainIndexError::InvalidTxNumberForBlock(3, block)),
        StateUpdateError::InvariantErrorTxNumWrongInBlock(3, block)
    );
    assert_eq!(
        StateUpdateError::from(TxMainChainIndexError::SerializationInvariantError(block)),
        StateUpdateError::SerializationInvariantError(block)
    );
    assert_eq!(
        StateUpdateError::from(TxMainChainIndexError::InvalidOutputCount),
        StateUpdateError::InvalidOutputCount
    );
    let storage = StateUpdateError::from(StorageError::Unrecoverable);
    assert_eq!(storage, StateUpdateError::StorageError(StorageError::Unrecoverable));
    assert!(!storage.is_validation_failure());
    assert!(StateUpdateError::MissingOutputOrSpent.is_validation_failure());
    assert!(StateUpdateError::ImmatureBlockRewardSpend.is_validation_failure());
}
