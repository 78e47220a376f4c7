//! The configuration of a chain and its builder.

use crate::chain::block::{Block, BlockHeader, BlockV1};
use crate::chain::transaction::{Destination, Transaction, TransactionV1, TxOutput};
use crate::codec::chain::{block_id_preimage, spec_block_id_preimage};
use crate::codec::wire::Wire;
use crate::primitives::{Amount, BlockDistance, BlockHeight, BlockId, SemVer, H256};
use std::collections::BTreeMap;
use vstd::prelude::*;

verus! {

/// The kinds of chain.
#[derive(Clone, Copy, Debug, PartialEq, Eq, Structural)]
pub enum ChainType {
    Mainnet,
    Testnet,
    Regtest,
    Signet,
}

/// The number of blocks after which a block reward may be spent.
pub const MAINNET_BLOCKREWARD_MATURITY: u64 = 500;

/// The largest size of a block header, in bytes.
pub const MAX_BLOCK_HEADER_SIZE: usize = 1024;

/// The largest size of the standard transactions of a block, in bytes.
pub const MAX_BLOCK_TXS_SIZE: usize = 524288;

/// The largest size of the smart contracts of a block, in bytes.
pub const MAX_BLOCK_CONTRACTS_SIZE: usize = 524288;

/// How far in the future the time of a block may lie, in seconds.
pub const DEFAULT_MAX_FUTURE_BLOCK_TIME_OFFSET: u64 = 3600;

/// The time between two blocks that is aimed at, in seconds.
pub const DEFAULT_TARGET_BLOCK_SPACING: u64 = 120;

/// The number of decimal places of a coin.
pub const COIN_DECIMALS: u8 = 11;

/// The number of atoms in a coin.
pub const ATOMS_PER_COIN: u128 = 100000000000;

/// The coins that exist from the start.
pub const PREMINE_COINS: u128 = 400000000;

/// The time of the genesis block.
pub const GENESIS_TIME: u32 = 1639975460;

/// The port of the peer-to-peer service, unless configured otherwise.
pub const DEFAULT_P2P_PORT: u16 = 8978;

/// The port of the remote procedure call service, unless configured otherwise.
pub const DEFAULT_RPC_PORT: u16 = 15234;

/// The seconds of a year.
pub const SECONDS_PER_YEAR: u64 = 31536000;

impl ChainType {
    /// The magic bytes of each kind of chain.
    pub open spec fn spec_default_magic_bytes(self) -> Seq<u8> {
        match self {
            ChainType::Mainnet => seq![0x1au8, 0x64, 0xe5, 0xf1],
            ChainType::Testnet => seq![0x2bu8, 0x7e, 0x19, 0xf8],
            ChainType::Regtest => seq![0xaau8, 0xbb, 0xcc, 0xdd],
            ChainType::Signet => seq![0xf3u8, 0xf7, 0x7b, 0x45],
        }
    }

    /// The magic bytes of each kind of chain.
    pub fn default_magic_bytes(&self) -> (r: [u8; 4])
        ensures
            r@ == self.spec_default_magic_bytes(),
    {
        let r: [u8; 4] = match self {
            ChainType::Mainnet => [0x1a, 0x64, 0xe5, 0xf1],
            ChainType::Testnet => [0x2b, 0x7e, 0x19, 0xf8],
            ChainType::Regtest => [0xaa, 0xbb, 0xcc, 0xdd],
            ChainType::Signet => [0xf3, 0xf7, 0x7b, 0x45],
        };
        assert(r@ =~= self.spec_default_magic_bytes());
        r
    }

    /// The prefix of the addresses of each kind of chain.
    pub open spec fn spec_default_address_prefix(self) -> Seq<char> {
        match self {
            ChainType::Mainnet => "mtc"@,
            ChainType::Testnet => "tmt"@,
            ChainType::Regtest => "rmt"@,
            ChainType::Signet => "smt"@,
        }
    }

    /// The prefix of the addresses of each kind of chain.
    pub fn default_address_prefix(&self) -> (r: &'static str)
        ensures
            r@ == self.spec_default_address_prefix(),
    {
        match self {
            ChainType::Mainnet => "mtc",
            ChainType::Testnet => "tmt",
            ChainType::Regtest => "rmt",
            ChainType::Signet => "smt",
        }
    }

    /// The limit of the proof of work of each kind of chain, in compact form.
    pub fn pow_limit(&self) -> (r: u32)
        ensures
            r == match *self {
                ChainType::Mainnet => 0x1d00ffffu32,
                ChainType::Testnet => 0x1d00ffffu32,
                ChainType::Regtest => 0x207fffffu32,
                ChainType::Signet => 0x1e0377aeu32,
            },
    {
        match self {
            ChainType::Mainnet => 0x1d00ffff,
            ChainType::Testnet => 0x1d00ffff,
            ChainType::Regtest => 0x207fffff,
            ChainType::Signet => 0x1e0377ae,
        }
    }

    /// The genesis block that each kind of chain starts from. The test
    /// network has none yet.
    pub fn default_genesis_init(&self) -> (r: GenesisBlockInit)
        requires
            *self != ChainType::Testnet,
        ensures
            r@ == match *self {
                ChainType::Mainnet => GenesisBlockInitView::Mainnet,
                _ => GenesisBlockInitView::UnitTest {
                    premine_destination: crate::chain::transaction::DestinationView::AnyoneCanSpend,
                },
            },
    {
        match self {
            ChainType::Mainnet => GenesisBlockInit::Mainnet,
            _ => GenesisBlockInit::UnitTest { premine_destination: Destination::AnyoneCanSpend },
        }
    }

    /// The upgrades that each kind of chain starts with: the main network
    /// and the regression test network ignore consensus for the genesis
    /// block and ask for proof of work from height 1 on; the signet ignores
    /// consensus.
    pub open spec fn spec_default_net_upgrades(self) -> Seq<NetUpgrade> {
        match self {
            ChainType::Signet => seq![
                NetUpgrade {
                    height: BlockHeight { height: 0 },
                    version: UpgradeVersion::ConsensusUpgrade(ConsensusUpgrade::IgnoreConsensus),
                },
            ],
            other => seq![
                NetUpgrade {
                    height: BlockHeight { height: 0 },
                    version: UpgradeVersion::ConsensusUpgrade(ConsensusUpgrade::IgnoreConsensus),
                },
                NetUpgrade {
                    height: BlockHeight { height: 1 },
                    version: UpgradeVersion::ConsensusUpgrade(
                        ConsensusUpgrade::PoW { initial_difficulty: other.pow_limit_spec() },
                    ),
                },
            ],
        }
    }

    /// The upgrades that each kind of chain starts with. The test network
    /// has none yet.
    pub fn default_net_upgrades(&self) -> (r: NetUpgrades)
        requires
            *self != ChainType::Testnet,
        ensures
            r.wf(),
            r.upgrades@ == self.spec_default_net_upgrades(),
            r.upgrades@ == match *self {
                ChainType::Signet => seq![
                    NetUpgrade {
                        height: BlockHeight { height: 0 },
                        version: UpgradeVersion::ConsensusUpgrade(ConsensusUpgrade::IgnoreConsensus),
                    },
                ],
                other => seq![
                    NetUpgrade {
                        height: BlockHeight { height: 0 },
                        version: UpgradeVersion::ConsensusUpgrade(ConsensusUpgrade::IgnoreConsensus),
                    },
                    NetUpgrade {
                        height: BlockHeight { height: 1 },
                        version: UpgradeVersion::ConsensusUpgrade(
                            ConsensusUpgrade::PoW { initial_difficulty: other.pow_limit_spec() },
                        ),
                    },
                ],
            },
    {
        match self {
            ChainType::Signet => NetUpgrades::unit_tests(),
            _ => {
                let mut upgrades: Vec<NetUpgrade> = Vec::new();
                upgrades.push(
                    NetUpgrade {
                        height: BlockHeight::new(0),
                        version: UpgradeVersion::ConsensusUpgrade(ConsensusUpgrade::IgnoreConsensus),
                    },
                );
                upgrades.push(
                    NetUpgrade {
                        height: BlockHeight::new(1),
                        version: UpgradeVersion::ConsensusUpgrade(
                            ConsensusUpgrade::PoW { initial_difficulty: self.pow_limit() },
                        ),
                    },
                );
                let r = NetUpgrades { upgrades };
                assert(r.upgrades@ =~= seq![
                    NetUpgrade {
                        height: BlockHeight { height: 0 },
                        version: UpgradeVersion::ConsensusUpgrade(ConsensusUpgrade::IgnoreConsensus),
                    },
                    NetUpgrade {
                        height: BlockHeight { height: 1 },
                        version: UpgradeVersion::ConsensusUpgrade(
                            ConsensusUpgrade::PoW { initial_difficulty: self.pow_limit_spec() },
                        ),
                    },
                ]);
                r
            },
        }
    }

    /// The limit of the proof of work of each kind of chain, in compact form.
    pub open spec fn pow_limit_spec(self) -> u32 {
        match self {
            ChainType::Mainnet => 0x1d00ffffu32,
            ChainType::Testnet => 0x1d00ffffu32,
            ChainType::Regtest => 0x207fffffu32,
            ChainType::Signet => 0x1e0377aeu32,
        }
    }
}

/// The rules by which blocks are agreed on.
#[derive(Clone, Copy, Debug, PartialEq, Eq, Structural)]
pub enum ConsensusUpgrade {
    /// Proof of work, starting at this difficulty in compact form.
    PoW { initial_difficulty: u32 },
    /// Proof of stake.
    PoS,
    /// Any block is taken.
    IgnoreConsensus,
}

/// What an upgrade of the network changes.
#[derive(Clone, Copy, Debug, PartialEq, Eq, Structural)]
pub enum UpgradeVersion {
    SomeUpgrade,
    ConsensusUpgrade(ConsensusUpgrade),
}

/// An upgrade and the height from which it holds.
#[derive(Clone, Copy, Debug, PartialEq, Eq, Structural)]
pub struct NetUpgrade {
    pub height: BlockHeight,
    pub version: UpgradeVersion,
}

/// Why a list of upgrades is not taken.
#[derive(Clone, Copy, Debug, PartialEq, Eq, Structural)]
pub enum NetUpgradeError {
    /// The first upgrade does not hold from genesis on, or there is none.
    NoUpgradeAtGenesis,
    /// The heights of the upgrades do not rise.
    HeightsNotRising,
}

/// The upgrades of the network, by the height from which each holds.
#[derive(Debug, Clone, PartialEq, Eq)]
pub struct NetUpgrades {
    pub upgrades: Vec<NetUpgrade>,
}

/// Whether the heights of the upgrades rise strictly.
pub open spec fn heights_rise(s: Seq<NetUpgrade>) -> bool {
    forall|i: int, j: int| 0 <= i < j < s.len() ==> s[i].height.height < s[j].height.height
}

impl NetUpgrades {
    /// The first upgrade holds from genesis on, and the heights rise.
    pub open spec fn wf(&self) -> bool {
        &&& self.upgrades@.len() >= 1
        &&& self.upgrades@[0].height.height == 0
        &&& heights_rise(self.upgrades@)
    }

    /// Takes a list of upgrades if the first holds from genesis on and the
    /// heights rise strictly.
    pub fn initialize(upgrades: Vec<NetUpgrade>) -> (r: Result<NetUpgrades, NetUpgradeError>)
        ensures
            match r {
                Ok(n) => n.wf() && n.upgrades == upgrades,
                Err(e) => !(NetUpgrades { upgrades }).wf() && e == if upgrades@.len() == 0
                    || upgrades@[0].height.height != 0 {
                    NetUpgradeError::NoUpgradeAtGenesis
                } else {
                    NetUpgradeError::HeightsNotRising
                },
            },
    {
        if upgrades.len() == 0 || upgrades[0].height.height != 0 {
            return Err(NetUpgradeError::NoUpgradeAtGenesis);
        }
        let mut i: usize = 1;
        while i < upgrades.len()
            invariant
                1 <= i <= upgrades@.len(),
                upgrades@[0].height.height == 0,
                forall|a: int|
                    1 <= a < i ==> (#[trigger] upgrades@[a - 1]).height.height
                        < upgrades@[a].height.height,
            decreases upgrades@.len() - i,
        {
            if upgrades[i - 1].height.height >= upgrades[i].height.height {
                assert(!heights_rise(upgrades@)) by {
                    assert(!(upgrades@[i - 1].height.height < upgrades@[i as int].height.height));
                }
                return Err(NetUpgradeError::HeightsNotRising);
            }
            i = i + 1;
        }
        proof {
            lemma_steps_rise(upgrades@);
        }
        Ok(NetUpgrades { upgrades })
    }

    /// The upgrades of unit tests: consensus is ignored from genesis on.
    pub fn unit_tests() -> (r: NetUpgrades)
        ensures
            r.wf(),
            r.upgrades@ == seq![
                NetUpgrade {
                    height: BlockHeight { height: 0 },
                    version: UpgradeVersion::ConsensusUpgrade(ConsensusUpgrade::IgnoreConsensus),
                },
            ],
    {
        let mut upgrades: Vec<NetUpgrade> = Vec::new();
        upgrades.push(
            NetUpgrade {
                height: BlockHeight::new(0),
                version: UpgradeVersion::ConsensusUpgrade(ConsensusUpgrade::IgnoreConsensus),
            },
        );
        let r = NetUpgrades { upgrades };
        assert(r.upgrades@ =~= seq![
            NetUpgrade {
                height: BlockHeight { height: 0 },
                version: UpgradeVersion::ConsensusUpgrade(ConsensusUpgrade::IgnoreConsensus),
            },
        ]);
        r
    }

    /// The upgrade that holds at a height: the last one that starts at or
    /// below it.
    pub fn version_at_height(&self, height: BlockHeight) -> (r: NetUpgrade)
        requires
            self.wf(),
        ensures
            exists|i: int|
                0 <= i < self.upgrades@.len() && r == #[trigger] self.upgrades@[i] && r.height.height
                    <= height.height && (i + 1 < self.upgrades@.len() ==> self.upgrades@[i
                    + 1].height.height > height.height),
    {
        let mut i: usize = 0;
        while i + 1 < self.upgrades.len() && self.upgrades[i + 1].height.height <= height.height
            invariant
                i < self.upgrades.len(),
                self.upgrades@[i as int].height.height <= height.height,
            decreases self.upgrades@.len() - i,
        {
            i = i + 1;
        }
        self.upgrades[i]
    }
}

/// Heights that rise from each upgrade to the next rise throughout.
proof fn lemma_steps_rise(s: Seq<NetUpgrade>)
    requires
        forall|a: int| 1 <= a < s.len() ==> (#[trigger] s[a - 1]).height.height < s[a].height.height,
    ensures
        heights_rise(s),
{
    assert forall|i: int, j: int| 0 <= i < j < s.len() implies s[i].height.height
        < s[j].height.height by {
        lemma_rise_between(s, i, j);
    }
}

proof fn lemma_rise_between(s: Seq<NetUpgrade>, i: int, j: int)
    requires
        forall|a: int| 1 <= a < s.len() ==> (#[trigger] s[a - 1]).height.height < s[a].height.height,
        0 <= i < j < s.len(),
    ensures
        s[i].height.height < s[j].height.height,
    decreases j - i,
{
    assert(s[j - 1].height.height < s[j].height.height);
    if i < j - 1 {
        lemma_rise_between(s, i, j - 1);
    }
}

/// What the choice of a genesis block is.
pub enum GenesisBlockInitView {
    UnitTest { premine_destination: crate::chain::transaction::DestinationView },
    Mainnet,
    Custom(crate::chain::block::BlockView),
}

/// The choice of a genesis block.
#[derive(Debug, Clone, PartialEq, Eq)]
pub enum GenesisBlockInit {
    /// The genesis block of unit tests, with the premine going here.
    UnitTest { premine_destination: Destination },
    /// The genesis block of the main network.
    Mainnet,
    /// This block.
    Custom(Block),
}

impl View for GenesisBlockInit {
    type V = GenesisBlockInitView;

    open spec fn view(&self) -> GenesisBlockInitView {
        match self {
            GenesisBlockInit::UnitTest { premine_destination } => GenesisBlockInitView::UnitTest {
                premine_destination: premine_destination@,
            },
            GenesisBlockInit::Mainnet => GenesisBlockInitView::Mainnet,
            GenesisBlockInit::Custom(b) => GenesisBlockInitView::Custom(b@),
        }
    }
}

/// The genesis block that pays the premine to a destination: one
/// transaction without inputs and with the premine as its one output. The
/// Merkle roots are left for the hasher to fill in.
pub open spec fn spec_genesis_with_premine(destination: crate::chain::transaction::DestinationView) -> crate::chain::block::BlockView {
    crate::chain::block::BlockView::V1(
        crate::chain::block::BlockV1View {
            header: crate::chain::block::BlockHeaderView {
                hash_prev_block: BlockId { hash: crate::primitives::zero_hash() },
                tx_merkle_root: crate::primitives::zero_hash(),
                witness_merkle_root: crate::primitives::zero_hash(),
                time: GENESIS_TIME,
                consensus_data: Seq::empty(),
            },
            transactions: seq![
                crate::chain::transaction::TransactionView::V1(
                    crate::chain::transaction::TransactionV1View {
                        flags: 0,
                        inputs: Seq::empty(),
                        outputs: seq![
                            crate::chain::transaction::TxOutputView {
                                value: Amount { atoms: (PREMINE_COINS * ATOMS_PER_COIN) as u128 },
                                destination,
                            },
                        ],
                        lock_time: 0,
                    },
                ),
            ],
        },
    )
}

/// The genesis block that pays the premine to a destination.
pub fn genesis_with_premine(destination: Destination) -> (r: Block)
    ensures
        r@ == spec_genesis_with_premine(destination@),
{
    let zero = H256::zero();
    let header = BlockHeader {
        hash_prev_block: BlockId { hash: zero },
        tx_merkle_root: zero,
        witness_merkle_root: zero,
        time: GENESIS_TIME,
        consensus_data: Vec::new(),
    };
    let mut outputs: Vec<TxOutput> = Vec::new();
    let output = TxOutput {
        value: Amount { atoms: PREMINE_COINS * ATOMS_PER_COIN },
        destination,
    };
    outputs.push(output);
    let tx = TransactionV1 { flags: 0, inputs: Vec::new(), outputs, lock_time: 0 };
    let mut transactions: Vec<Transaction> = Vec::new();
    let t = Transaction::V1(tx);
    transactions.push(t);
    let r = Block::V1(BlockV1 { header, transactions });
    proof {
        assert(tx@.inputs =~= Seq::empty());
        assert(tx@.outputs =~= seq![output@]);
        assert(crate::chain::transaction::transactions_view(transactions@) =~= seq![t@]);
    }
    r
}

/// The genesis block of the main network.
pub fn create_mainnet_genesis() -> (r: Block)
    ensures
        r@ == spec_genesis_with_premine(
            crate::chain::transaction::DestinationView::AnyoneCanSpend,
        ),
{
    genesis_with_premine(Destination::AnyoneCanSpend)
}

/// The genesis block of unit tests.
pub fn create_unit_test_genesis(premine_destination: Destination) -> (r: Block)
    ensures
        r@ == spec_genesis_with_premine(premine_destination@),
{
    genesis_with_premine(premine_destination)
}

/// A span of heights with one subsidy for each of its blocks.
#[derive(Clone, Copy, Debug, PartialEq, Eq, Structural)]
pub struct EmissionPeriod {
    /// The first height of the span.
    pub start: BlockHeight,
    /// The subsidy of each block from there on.
    pub subsidy: Amount,
}

/// An emission schedule as a table: the subsidy before the first period,
/// and the periods by rising start.
#[derive(Debug, Clone, PartialEq, Eq)]
pub struct EmissionScheduleTabular {
    pub initial_subsidy: Amount,
    pub periods: Vec<EmissionPeriod>,
}

/// What an emission table is.
pub struct EmissionScheduleTabularView {
    pub initial_subsidy: Amount,
    pub periods: Seq<EmissionPeriod>,
}

impl View for EmissionScheduleTabular {
    type V = EmissionScheduleTabularView;

    open spec fn view(&self) -> EmissionScheduleTabularView {
        EmissionScheduleTabularView { initial_subsidy: self.initial_subsidy, periods: self.periods@ }
    }
}

/// The subsidy of a block at a height by a table: that of the last period
/// among the first `upto` that starts at or below the height, and the
/// initial subsidy where none does.
pub open spec fn subsidy_by(t: EmissionScheduleTabularView, height: u64, upto: int) -> Amount
    decreases upto,
{
    if upto <= 0 {
        t.initial_subsidy
    } else if upto <= t.periods.len() && t.periods[upto - 1].start.height <= height {
        t.periods[upto - 1].subsidy
    } else {
        subsidy_by(t, height, upto - 1)
    }
}

impl EmissionScheduleTabular {
    pub fn new(initial_subsidy: Amount, periods: Vec<EmissionPeriod>) -> (r: Self)
        ensures
            r.initial_subsidy == initial_subsidy,
            r.periods == periods,
    {
        EmissionScheduleTabular { initial_subsidy, periods }
    }

    /// The subsidy of the block at a height: that of the last period that
    /// starts at or below the height.
    pub fn subsidy(&self, height: BlockHeight) -> (r: Amount)
        ensures
            r == subsidy_by(self@, height.height, self.periods@.len() as int),
    {
        let mut i: usize = self.periods.len();
        while i > 0
            invariant
                i <= self.periods@.len(),
                subsidy_by(self@, height.height, self.periods@.len() as int) == subsidy_by(
                    self@,
                    height.height,
                    i as int,
                ),
            decreases i,
        {
            if self.periods[i - 1].start.height <= height.height {
                return self.periods[i - 1].subsidy;
            }
            i = i - 1;
        }
        self.initial_subsidy
    }

    /// A copy of the table.
    pub fn duplicate(&self) -> (r: Self)
        ensures
            r@ == self@,
    {
        let mut periods: Vec<EmissionPeriod> = Vec::new();
        let mut i: usize = 0;
        while i < self.periods.len()
            invariant
                i <= self.periods@.len(),
                periods@ == self.periods@.take(i as int),
            decreases self.periods@.len() - i,
        {
            periods.push(self.periods[i]);
            assert(self.periods@.take(i as int + 1) =~= self.periods@.take(i as int).push(
                self.periods@[i as int],
            ));
            i = i + 1;
        }
        assert(self.periods@.take(self.periods@.len() as int) =~= self.periods@);
        EmissionScheduleTabular { initial_subsidy: self.initial_subsidy, periods }
    }
}

/// The coins per block in each year of the main network, from the first on.
pub open spec fn mainnet_coins_per_block() -> Seq<u128> {
    seq![202u128, 151, 113, 85, 64, 48, 36, 27, 20, 15, 0]
}

/// The number of blocks in a year with this many seconds between blocks.
pub open spec fn blocks_per_year(spacing: u64) -> int {
    SECONDS_PER_YEAR as int / spacing as int
}

/// Whether a table is the emission table of the main network for this
/// block spacing: for each year the coins per block of that year, from the
/// first block of the year on; after ten years nothing more is emitted.
pub open spec fn is_mainnet_table(t: EmissionScheduleTabularView, target_block_spacing: u64) -> bool {
    &&& t.initial_subsidy.atoms == 202 * ATOMS_PER_COIN
    &&& t.periods.len() == 11
    &&& forall|y: int|
        0 <= y < 11 ==> (#[trigger] t.periods[y]).start.height == y * blocks_per_year(
            target_block_spacing,
        ) && t.periods[y].subsidy.atoms == mainnet_coins_per_block()[y] * ATOMS_PER_COIN
}

/// The emission table of the main network: for each year the coins per
/// block of that year, from the first block of the year on; after ten
/// years nothing more is emitted.
pub fn mainnet_schedule_table(target_block_spacing: u64) -> (r: EmissionScheduleTabular)
    requires
        target_block_spacing > 0,
    ensures
        is_mainnet_table(r@, target_block_spacing),
{
    let coins: [u128; 11] = [202, 151, 113, 85, 64, 48, 36, 27, 20, 15, 0];
    assert(coins@ =~= mainnet_coins_per_block());
    let per_year = SECONDS_PER_YEAR / target_block_spacing;
    let mut periods: Vec<EmissionPeriod> = Vec::new();
    let mut y: usize = 0;
    while y < 11
        invariant
            y <= 11,
            per_year == blocks_per_year(target_block_spacing),
            per_year <= SECONDS_PER_YEAR,
            coins@ == mainnet_coins_per_block(),
            periods@.len() == y,
            forall|k: int|
                0 <= k < y ==> (#[trigger] periods@[k]).start.height == k * per_year
                    && periods@[k].subsidy.atoms == mainnet_coins_per_block()[k] * ATOMS_PER_COIN,
        decreases 11 - y,
    {
        assert(y * per_year <= 11 * SECONDS_PER_YEAR) by (nonlinear_arith)
            requires
                y <= 11,
                per_year <= SECONDS_PER_YEAR,
        ;
        assert(coins@[y as int] <= 202);
        periods.push(
            EmissionPeriod {
                start: BlockHeight { height: (y as u64) * per_year },
                subsidy: Amount { atoms: coins[y] * ATOMS_PER_COIN },
            },
        );
        y = y + 1;
    }
    EmissionScheduleTabular { initial_subsidy: Amount { atoms: 202 * ATOMS_PER_COIN }, periods }
}

/// The choice of an emission schedule.
#[derive(Debug, Clone, PartialEq, Eq)]
pub enum EmissionScheduleInit {
    /// The schedule of the main network.
    Mainnet,
    /// This table.
    Table(EmissionScheduleTabular),
}

/// All that is fixed of a chain.
#[derive(Debug, Clone, PartialEq, Eq)]
pub struct ChainConfig {
    pub chain_type: ChainType,
    pub address_prefix: String,
    pub rpc_port: u16,
    pub p2p_port: u16,
    pub magic_bytes: [u8; 4],
    pub blockreward_maturity: BlockDistance,
    pub max_future_block_time_offset: u64,
    pub version: SemVer,
    pub target_block_spacing: u64,
    pub coin_decimals: u8,
    pub max_block_header_size: usize,
    pub max_block_size_with_standard_txs: usize,
    pub max_block_size_with_smart_contracts: usize,
    pub net_upgrades: NetUpgrades,
    pub genesis_block: Block,
    /// The ids that blocks at given heights must have. No chain has any yet.
    pub height_checkpoint_data: BTreeMap<u64, BlockId>,
    pub emission_schedule: EmissionScheduleTabular,
}

impl ChainConfig {
    /// The bytes whose hash is the id of the genesis block, if its header
    /// can be encoded.
    pub fn genesis_block_id_preimage(&self) -> (r: Option<Vec<u8>>)
        ensures
            match r {
                Some(bytes) => BlockHeader::encodable(self.genesis_block.spec_header()@)
                    && bytes@ == spec_block_id_preimage(self.genesis_block.spec_header()@),
                None => !BlockHeader::encodable(self.genesis_block.spec_header()@),
            },
    {
        block_id_preimage(self.genesis_block.header())
    }

    /// The ids that blocks at given heights must have.
    pub fn height_checkpoints(&self) -> (r: &BTreeMap<u64, BlockId>)
        ensures
            *r == self.height_checkpoint_data,
    {
        &self.height_checkpoint_data
    }

    /// The magic bytes of the chain.
    pub fn magic_bytes(&self) -> (r: &[u8; 4])
        ensures
            *r == self.magic_bytes,
    {
        &self.magic_bytes
    }

    /// The genesis block of the chain.
    pub fn genesis_block(&self) -> (r: &Block)
        ensures
            *r == self.genesis_block,
    {
        &self.genesis_block
    }
}

/// Builder for [ChainConfig]
#[derive(Debug, Clone, PartialEq, Eq)]
pub struct Builder {
    pub chain_type: ChainType,
    pub address_prefix: String,
    pub rpc_port: u16,
    pub p2p_port: u16,
    pub magic_bytes: [u8; 4],
    pub blockreward_maturity: BlockDistance,
    pub max_future_block_time_offset: u64,
    pub version: SemVer,
    pub target_block_spacing: u64,
    pub coin_decimals: u8,
    pub max_block_header_size: usize,
    pub max_block_size_with_standard_txs: usize,
    pub max_block_size_with_smart_contracts: usize,
    pub net_upgrades: NetUpgrades,
    pub genesis_block: GenesisBlockInit,
    pub emission_schedule: EmissionScheduleInit,
}

impl Builder {
    /// What is fixed by the builder apart from the genesis block and the
    /// emission schedule goes into the configuration as it is.
    pub open spec fn carried_over(&self, c: ChainConfig) -> bool {
        &&& c.chain_type == self.chain_type
        &&& c.address_prefix == self.address_prefix
        &&& c.rpc_port == self.rpc_port
        &&& c.p2p_port == self.p2p_port
        &&& c.magic_bytes == self.magic_bytes
        &&& c.blockreward_maturity == self.blockreward_maturity
        &&& c.max_future_block_time_offset == self.max_future_block_time_offset
        &&& c.version == self.version
        &&& c.target_block_spacing == self.target_block_spacing
        &&& c.coin_decimals == self.coin_decimals
        &&& c.max_block_header_size == self.max_block_header_size
        &&& c.max_block_size_with_standard_txs == self.max_block_size_with_standard_txs
        &&& c.max_block_size_with_smart_contracts == self.max_block_size_with_smart_contracts
        &&& c.net_upgrades == self.net_upgrades
    }

    /// The genesis block that the builder has chosen.
    pub open spec fn spec_genesis(&self) -> crate::chain::block::BlockView {
        match self.genesis_block {
            GenesisBlockInit::Mainnet => spec_genesis_with_premine(
                crate::chain::transaction::DestinationView::AnyoneCanSpend,
            ),
            GenesisBlockInit::Custom(genesis) => genesis@,
            GenesisBlockInit::UnitTest { premine_destination } => spec_genesis_with_premine(
                premine_destination@,
            ),
        }
    }

    /// What every new builder of a kind of chain holds, whatever its
    /// genesis block and its upgrades.
    pub open spec fn has_defaults_of(&self, chain_type: ChainType) -> bool {
        &&& self.chain_type == chain_type
        &&& self.address_prefix@ == chain_type.spec_default_address_prefix()
        &&& self.blockreward_maturity.blocks == MAINNET_BLOCKREWARD_MATURITY
        &&& self.coin_decimals == COIN_DECIMALS
        &&& self.magic_bytes@ == chain_type.spec_default_magic_bytes()
        &&& self.version == (SemVer { major: 0, minor: 1, patch: 0 })
        &&& self.max_block_header_size == MAX_BLOCK_HEADER_SIZE
        &&& self.max_block_size_with_standard_txs == MAX_BLOCK_TXS_SIZE
        &&& self.max_block_size_with_smart_contracts == MAX_BLOCK_CONTRACTS_SIZE
        &&& self.max_future_block_time_offset == DEFAULT_MAX_FUTURE_BLOCK_TIME_OFFSET
        &&& self.target_block_spacing == DEFAULT_TARGET_BLOCK_SPACING
        &&& self.p2p_port == DEFAULT_P2P_PORT
        &&& self.rpc_port == DEFAULT_RPC_PORT
        &&& self.emission_schedule is Mainnet
    }

    /// A new chain config builder, with given chain type as a basis
    pub fn new(chain_type: ChainType) -> (r: Self)
        requires
            chain_type != ChainType::Testnet,
        ensures
            r.has_defaults_of(chain_type),
            r.net_upgrades.wf(),
            r.net_upgrades.upgrades@ == chain_type.spec_default_net_upgrades(),
            r.genesis_block@ == match chain_type {
                ChainType::Mainnet => GenesisBlockInitView::Mainnet,
                _ => GenesisBlockInitView::UnitTest {
                    premine_destination: crate::chain::transaction::DestinationView::AnyoneCanSpend,
                },
            },
    {
        Self {
            chain_type,
            address_prefix: chain_type.default_address_prefix().to_owned(),
            blockreward_maturity: BlockDistance::new(MAINNET_BLOCKREWARD_MATURITY),
            coin_decimals: COIN_DECIMALS,
            magic_bytes: chain_type.default_magic_bytes(),
            version: SemVer::new(0, 1, 0),
            max_block_header_size: MAX_BLOCK_HEADER_SIZE,
            max_block_size_with_standard_txs: MAX_BLOCK_TXS_SIZE,
            max_block_size_with_smart_contracts: MAX_BLOCK_CONTRACTS_SIZE,
            max_future_block_time_offset: DEFAULT_MAX_FUTURE_BLOCK_TIME_OFFSET,
            target_block_spacing: DEFAULT_TARGET_BLOCK_SPACING,
            p2p_port: DEFAULT_P2P_PORT,
            rpc_port: DEFAULT_RPC_PORT,
            genesis_block: chain_type.default_genesis_init(),
            emission_schedule: EmissionScheduleInit::Mainnet,
            net_upgrades: chain_type.default_net_upgrades(),
        }
    }

    /// New builder initialized with test chain config
    pub fn test_chain() -> (r: Self)
        ensures
            r.has_defaults_of(ChainType::Mainnet),
            r.net_upgrades.wf(),
            r.net_upgrades.upgrades@ == seq![
                NetUpgrade {
                    height: BlockHeight { height: 0 },
                    version: UpgradeVersion::ConsensusUpgrade(ConsensusUpgrade::IgnoreConsensus),
                },
            ],
            r.genesis_block@ == (GenesisBlockInitView::UnitTest {
                premine_destination: crate::chain::transaction::DestinationView::AnyoneCanSpend,
            }),
    {
        Self::new(ChainType::Mainnet).net_upgrades(NetUpgrades::unit_tests()).genesis_unittest(
            Destination::AnyoneCanSpend,
        )
    }

    /// Build the chain config
    ///
    /// Every setting goes over as it is. The genesis block is the one that
    /// was chosen, and so is the emission schedule, where the schedule of
    /// the main network is made for the block spacing that was set.
    pub fn build(self) -> (r: ChainConfig)
        requires
            self.emission_schedule is Mainnet ==> self.target_block_spacing > 0,
        ensures
            self.carried_over(r),
            r.genesis_block@ == self.spec_genesis(),
            r.height_checkpoint_data@ == Map::<u64, BlockId>::empty(),
            match self.emission_schedule {
                EmissionScheduleInit::Table(t) => r.emission_schedule == t,
                EmissionScheduleInit::Mainnet => is_mainnet_table(
                    r.emission_schedule@,
                    self.target_block_spacing,
                ),
            },
    {
        let Self {
            chain_type,
            address_prefix,
            blockreward_maturity,
            coin_decimals,
            magic_bytes,
            version,
            max_block_header_size,
            max_block_size_with_standard_txs,
            max_block_size_with_smart_contracts,
            max_future_block_time_offset,
            target_block_spacing,
            p2p_port,
            rpc_port,
            genesis_block,
            emission_schedule,
            net_upgrades,
        } = self;

        let emission_schedule = match emission_schedule {
            EmissionScheduleInit::Table(t) => t,
            EmissionScheduleInit::Mainnet => mainnet_schedule_table(target_block_spacing),
        };

        let genesis_block = match genesis_block {
            GenesisBlockInit::Mainnet => create_mainnet_genesis(),
            GenesisBlockInit::Custom(genesis) => genesis,
            GenesisBlockInit::UnitTest { premine_destination } => create_unit_test_genesis(
                premine_destination,
            ),
        };

        ChainConfig {
            chain_type,
            address_prefix,
            blockreward_maturity,
            coin_decimals,
            magic_bytes,
            version,
            max_block_header_size,
            max_block_size_with_standard_txs,
            max_block_size_with_smart_contracts,
            max_future_block_time_offset,
            target_block_spacing,
            p2p_port,
            rpc_port,
            genesis_block,
            height_checkpoint_data: BTreeMap::new(),
            emission_schedule,
            net_upgrades,
        }
    }

    /// Set the `chain_type` field.
    #[must_use]
    pub fn chain_type(self, chain_type: ChainType) -> (r: Self)
        ensures
            r == (Builder { chain_type, ..self }),
    {
        let mut b = self;
        b.chain_type = chain_type;
        b
    }

    /// Set the `address_prefix` field.
    #[must_use]
    pub fn address_prefix(self, address_prefix: String) -> (r: Self)
        ensures
            r == (Builder { address_prefix, ..self }),
    {
        let mut b = self;
        b.address_prefix = address_prefix;
        b
    }

    /// Set the `rpc_port` field.
    #[must_use]
    pub fn rpc_port(self, rpc_port: u16) -> (r: Self)
        ensures
            r == (Builder { rpc_port, ..self }),
    {
        let mut b = self;
        b.rpc_port = rpc_port;
        b
    }

    /// Set the `p2p_port` field.
    #[must_use]
    pub fn p2p_port(self, p2p_port: u16) -> (r: Self)
        ensures
            r == (Builder { p2p_port, ..self }),
    {
        let mut b = self;
        b.p2p_port = p2p_port;
        b
    }

    /// Set the `magic_bytes` field.
    #[must_use]
    pub fn magic_bytes(self, magic_bytes: [u8; 4]) -> (r: Self)
        ensures
            r == (Builder { magic_bytes, ..self }),
    {
        let mut b = self;
        b.magic_bytes = magic_bytes;
        b
    }

    /// Set the `blockreward_maturity` field.
    #[must_use]
    pub fn blockreward_maturity(self, blockreward_maturity: BlockDistance) -> (r: Self)
        ensures
            r == (Builder { blockreward_maturity, ..self }),
    {
        let mut b = self;
        b.blockreward_maturity = blockreward_maturity;
        b
    }

    /// Set the `max_future_block_time_offset` field, in seconds.
    #[must_use]
    pub fn max_future_block_time_offset(self, max_future_block_time_offset: u64) -> (r: Self)
        ensures
            r == (Builder { max_future_block_time_offset, ..self }),
    {
        let mut b = self;
        b.max_future_block_time_offset = max_future_block_time_offset;
        b
    }

    /// Set the `version` field.
    #[must_use]
    pub fn version(self, version: SemVer) -> (r: Self)
        ensures
            r == (Builder { version, ..self }),
    {
        let mut b = self;
        b.version = version;
        b
    }

    /// Set the `target_block_spacing` field, in seconds.
    #[must_use]
    pub fn target_block_spacing(self, target_block_spacing: u64) -> (r: Self)
        ensures
            r == (Builder { target_block_spacing, ..self }),
    {
        let mut b = self;
        b.target_block_spacing = target_block_spacing;
        b
    }

    /// Set the `coin_decimals` field.
    #[must_use]
    pub fn coin_decimals(self, coin_decimals: u8) -> (r: Self)
        ensures
            r == (Builder { coin_decimals, ..self }),
    {
        let mut b = self;
        b.coin_decimals = coin_decimals;
        b
    }

    /// Set the `max_block_header_size` field.
    #[must_use]
    pub fn max_block_header_size(self, max_block_header_size: usize) -> (r: Self)
        ensures
            r == (Builder { max_block_header_size, ..self }),
    {
        let mut b = self;
        b.max_block_header_size = max_block_header_size;
        b
    }

    /// Set the `max_block_size_with_standard_txs` field.
    #[must_use]
    pub fn max_block_size_with_standard_txs(self, max_block_size_with_standard_txs: usize) -> (r:
        Self)
        ensures
            r == (Builder { max_block_size_with_standard_txs, ..self }),
    {
        let mut b = self;
        b.max_block_size_with_standard_txs = max_block_size_with_standard_txs;
        b
    }

    /// Set the `max_block_size_with_smart_contracts` field.
    #[must_use]
    pub fn max_block_size_with_smart_contracts(self, max_block_size_with_smart_contracts: usize) -> (r:
        Self)
        ensures
            r == (Builder { max_block_size_with_smart_contracts, ..self }),
    {
        let mut b = self;
        b.max_block_size_with_smart_contracts = max_block_size_with_smart_contracts;
        b
    }

    /// Set the `net_upgrades` field.
    #[must_use]
    pub fn net_upgrades(self, net_upgrades: NetUpgrades) -> (r: Self)
        ensures
            r == (Builder { net_upgrades, ..self }),
    {
        let mut b = self;
        b.net_upgrades = net_upgrades;
        b
    }

    /// Set the genesis block to be the unit test version
    #[must_use]
    pub fn genesis_unittest(self, premine_destination: Destination) -> (r: Self)
        ensures
            r == (Builder {
                genesis_block: GenesisBlockInit::UnitTest { premine_destination },
                ..self
            }),
    {
        let mut b = self;
        b.genesis_block = GenesisBlockInit::UnitTest { premine_destination };
        b
    }

    /// Set genesis block to be the mainnet genesis
    #[must_use]
    pub fn genesis_mainnet(self) -> (r: Self)
        ensures
            r == (Builder { genesis_block: GenesisBlockInit::Mainnet, ..self }),
    {
        let mut b = self;
        b.genesis_block = GenesisBlockInit::Mainnet;
        b
    }

    /// Specify a custom genesis block
    #[must_use]
    pub fn genesis_custom(self, genesis: Block) -> (r: Self)
        ensures
            r == (Builder { genesis_block: GenesisBlockInit::Custom(genesis), ..self }),
    {
        let mut b = self;
        b.genesis_block = GenesisBlockInit::Custom(genesis);
        b
    }

    /// Set emission schedule to the mainnet schedule
    #[must_use]
    pub fn emission_schedule_mainnet(self) -> (r: Self)
        ensures
            r == (Builder { emission_schedule: EmissionScheduleInit::Mainnet, ..self }),
    {
        let mut b = self;
        b.emission_schedule = EmissionScheduleInit::Mainnet;
        b
    }

    /// Initialize an emission schedule using a table
    #[must_use]
    pub fn emission_schedule_tabular(self, es: EmissionScheduleTabular) -> (r: Self)
        ensures
            r == (Builder { emission_schedule: EmissionScheduleInit::Table(es), ..self }),
    {
        let mut b = self;
        b.emission_schedule = EmissionScheduleInit::Table(es);
        b
    }
}

} // verus!
