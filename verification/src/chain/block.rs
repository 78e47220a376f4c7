//! Block headers and blocks, format version 1.

use crate::chain::transaction::{clone_bytes, clone_transactions, transactions_view, Transaction, TransactionView};
use crate::primitives::{BlockId, H256};
use vstd::prelude::*;

verus! {

/// What a block header is, with its consensus data as a sequence of bytes.
pub struct BlockHeaderView {
    pub hash_prev_block: BlockId,
    pub tx_merkle_root: H256,
    pub witness_merkle_root: H256,
    pub time: u32,
    pub consensus_data: Seq<u8>,
}

/// The header of a block. The block's id is the hash of the header, so it
/// commits to the transactions through the two Merkle roots.
#[derive(Debug, PartialEq, Eq)]
pub struct BlockHeader {
    pub hash_prev_block: BlockId,
    pub tx_merkle_root: H256,
    pub witness_merkle_root: H256,
    pub time: u32,
    pub consensus_data: Vec<u8>,
}

impl View for BlockHeader {
    type V = BlockHeaderView;

    open spec fn view(&self) -> BlockHeaderView {
        BlockHeaderView {
            hash_prev_block: self.hash_prev_block,
            tx_merkle_root: self.tx_merkle_root,
            witness_merkle_root: self.witness_merkle_root,
            time: self.time,
            consensus_data: self.consensus_data@,
        }
    }
}

impl Clone for BlockHeader {
    fn clone(&self) -> (r: Self)
        ensures
            r@ == self@,
    {
        BlockHeader {
            hash_prev_block: self.hash_prev_block,
            tx_merkle_root: self.tx_merkle_root,
            witness_merkle_root: self.witness_merkle_root,
            time: self.time,
            consensus_data: clone_bytes(&self.consensus_data),
        }
    }
}

impl BlockHeader {
    pub fn new(
        hash_prev_block: BlockId,
        tx_merkle_root: H256,
        witness_merkle_root: H256,
        time: u32,
        consensus_data: Vec<u8>,
    ) -> (r: BlockHeader)
        ensures
            r == (BlockHeader {
                hash_prev_block,
                tx_merkle_root,
                witness_merkle_root,
                time,
                consensus_data,
            }),
    {
        BlockHeader { hash_prev_block, tx_merkle_root, witness_merkle_root, time, consensus_data }
    }

    pub fn get_prev_block_id(&self) -> (r: &BlockId)
        ensures
            *r == self.hash_prev_block,
    {
        &self.hash_prev_block
    }
}

/// What a version 1 block is.
pub struct BlockV1View {
    pub header: BlockHeaderView,
    pub transactions: Seq<TransactionView>,
}

/// A block, format version 1: a header and the transactions it commits to.
#[derive(Debug, PartialEq, Eq)]
pub struct BlockV1 {
    pub header: BlockHeader,
    pub transactions: Vec<Transaction>,
}

impl View for BlockV1 {
    type V = BlockV1View;

    open spec fn view(&self) -> BlockV1View {
        BlockV1View { header: self.header@, transactions: transactions_view(self.transactions@) }
    }
}

impl Clone for BlockV1 {
    fn clone(&self) -> (r: Self)
        ensures
            r@ == self@,
    {
        BlockV1 {
            header: self.header.clone(),
            transactions: clone_transactions(&self.transactions),
        }
    }
}

/// The byte that stands before a version 1 block header in what is hashed
/// for the block id.
pub const BLOCK_V1_VERSION_BYTE: u8 = 0x01;

impl BlockV1 {
    pub fn new(header: BlockHeader, transactions: Vec<Transaction>) -> (r: BlockV1)
        ensures
            r.header == header,
            r.transactions == transactions,
    {
        BlockV1 { header, transactions }
    }

    pub fn get_tx_merkle_root(&self) -> (r: H256)
        ensures
            r == self.header.tx_merkle_root,
    {
        self.header.tx_merkle_root
    }

    pub fn get_witness_merkle_root(&self) -> (r: H256)
        ensures
            r == self.header.witness_merkle_root,
    {
        self.header.witness_merkle_root
    }

    pub fn get_header(&self) -> (r: &BlockHeader)
        ensures
            *r == self.header,
    {
        &self.header
    }

    /// Replaces the consensus data of the header and nothing else.
    pub fn update_consensus_data(&mut self, consensus_data: Vec<u8>)
        ensures
            final(self).header.consensus_data == consensus_data,
            final(self).header.hash_prev_block == old(self).header.hash_prev_block,
            final(self).header.tx_merkle_root == old(self).header.tx_merkle_root,
            final(self).header.witness_merkle_root == old(self).header.witness_merkle_root,
            final(self).header.time == old(self).header.time,
            final(self).transactions == old(self).transactions,
    {
        self.header.consensus_data = consensus_data;
    }

    pub fn get_block_time(&self) -> (r: u32)
        ensures
            r == self.header.time,
    {
        self.header.time
    }

    pub fn get_transactions(&self) -> (r: &Vec<Transaction>)
        ensures
            *r == self.transactions,
    {
        &self.transactions
    }

    pub fn get_prev_block_id(&self) -> (r: &BlockId)
        ensures
            *r == self.header.hash_prev_block,
    {
        &self.header.hash_prev_block
    }
}

/// What a block of any version is.
pub enum BlockView {
    V1(BlockV1View),
}

impl BlockView {
    /// The header of the block.
    pub open spec fn header(self) -> BlockHeaderView {
        match self {
            BlockView::V1(b) => b.header,
        }
    }
}

/// A block of any known format version.
#[derive(Debug, PartialEq, Eq)]
pub enum Block {
    V1(BlockV1),
}

impl View for Block {
    type V = BlockView;

    open spec fn view(&self) -> BlockView {
        match self {
            Block::V1(b) => BlockView::V1(b@),
        }
    }
}

impl Clone for Block {
    fn clone(&self) -> (r: Self)
        ensures
            r@ == self@,
    {
        match self {
            Block::V1(b) => Block::V1(b.clone()),
        }
    }
}

impl Block {
    /// The header of the block.
    pub open spec fn spec_header(&self) -> BlockHeader {
        match self {
            Block::V1(b) => b.header,
        }
    }

    /// The header of the block.
    pub fn header(&self) -> (r: &BlockHeader)
        ensures
            *r == self.spec_header(),
    {
        match self {
            Block::V1(b) => &b.header,
        }
    }

    /// The id of the block that this block builds on.
    pub fn prev_block_id(&self) -> (r: BlockId)
        ensures
            r == self.spec_header().hash_prev_block,
            r == self@.header().hash_prev_block,
    {
        match self {
            Block::V1(b) => b.header.hash_prev_block,
        }
    }
}

/// The views of a list of blocks, in order.
pub open spec fn blocks_view(v: Seq<Block>) -> Seq<BlockView> {
    v.map_values(|b: Block| b@)
}

/// The views of a list of headers, in order.
pub open spec fn block_headers_view(v: Seq<BlockHeader>) -> Seq<BlockHeaderView> {
    v.map_values(|h: BlockHeader| h@)
}

} // verus!
