//! The read side's denormalized views: a block joined with its
//! transaction hashes, and a single transaction's position. Not-found is
//! a distinguishable outcome, never an error.
use vstd::prelude::*;

use crate::model::views_of_strings;
use crate::tables::block::{self, max_height, BlockRow, BlockRowV};
use crate::tables::schema::Store;
use crate::tables::tx::{self, tx_rows_of_block, views_of_tx_rows, TxRow, TxRowV};

verus! {

/// A block as the query boundary serves it: header data plus the count
/// and hashes of its transactions.
#[derive(Debug, PartialEq, Eq)]
pub struct BlockView {
    pub height: u64,
    pub hash: String,
    pub time: String,
    pub proposer: String,
    pub tx_count: usize,
    pub tx_hashes: Vec<String>,
}

/// A transaction as the query boundary serves it.
#[derive(Debug, PartialEq, Eq)]
pub struct TxView {
    pub hash: String,
    pub index: u32,
    pub block: u64,
}

/// The hashes of a sequence of tx rows, in order.
pub open spec fn hashes_of_tx_rows(v: Seq<TxRowV>) -> Seq<Seq<char>> {
    v.map_values(|t: TxRowV| t.hash)
}

impl BlockView {
    /// Joins a block row with its transaction rows into the served view.
    #[verifier::loop_isolation(false)]
    pub fn from(block: BlockRow, txs: Vec<TxRow>) -> (r: BlockView)
        ensures
            r.height == block@.height,
            r.hash@ == block@.hash,
            r.time@ == block@.time,
            r.proposer@ == block@.proposer,
            r.tx_count == txs@.len(),
            views_of_strings(r.tx_hashes@) == hashes_of_tx_rows(views_of_tx_rows(txs@)),
    {
        let tx_count: usize = txs.len();
        let mut tx_hashes: Vec<String> = Vec::new();
        let mut i: usize = 0;
        while i < txs.len()
            invariant
                0 <= i <= txs@.len(),
                views_of_strings(tx_hashes@) =~= hashes_of_tx_rows(views_of_tx_rows(txs@)).take(
                    i as int,
                ),
            decreases txs@.len() - i,
        {
            tx_hashes.push(txs[i].hash.clone());
            proof {
                assert(views_of_strings(tx_hashes@) =~= hashes_of_tx_rows(
                    views_of_tx_rows(txs@),
                ).take(i + 1));
            }
            i = i + 1;
        }
        proof {
            let all = hashes_of_tx_rows(views_of_tx_rows(txs@));
            assert(all.take(all.len() as int) =~= all);
        }
        BlockView {
            height: block.height,
            hash: block.hash,
            time: block.time,
            proposer: block.proposer,
            tx_count,
            tx_hashes,
        }
    }
}

/// Serves the highest indexed block, joined with its transaction hashes;
/// `None` on an empty store.
pub fn query_block_latest(store: &Store) -> (r: Option<BlockView>)
    ensures
        match r {
            Some(v) => {
                &&& Some(v.height) == max_height(store@.blocks)
                &&& store@.blocks.contains(
                    BlockRowV { height: v.height, hash: v.hash@, time: v.time@, proposer: v.proposer@ },
                )
                &&& v.tx_count == tx_rows_of_block(store@.txs, v.height).len()
                &&& views_of_strings(v.tx_hashes@) == hashes_of_tx_rows(
                    tx_rows_of_block(store@.txs, v.height),
                )
            },
            None => store@.blocks.len() == 0,
        },
{
    match block::top(store) {
        None => None,
        Some(row) => {
            let txs = tx::by_block(store, row.height);
            let ghost rv = row@;
            let v = BlockView::from(row, txs);
            proof {
                assert(BlockRowV { height: v.height, hash: v.hash@, time: v.time@, proposer: v.proposer@ }
                    == rv);
            }
            Some(v)
        },
    }
}

/// Serves the block at a given height; `None` when it is not indexed.
pub fn query_block_by_height(store: &Store, height: u64) -> (r: Option<BlockView>)
    ensures
        match r {
            Some(v) => {
                &&& v.height == height
                &&& store@.blocks.contains(
                    BlockRowV { height: v.height, hash: v.hash@, time: v.time@, proposer: v.proposer@ },
                )
                &&& v.tx_count == tx_rows_of_block(store@.txs, height).len()
                &&& views_of_strings(v.tx_hashes@) == hashes_of_tx_rows(
                    tx_rows_of_block(store@.txs, height),
                )
            },
            None => !block::has_height(store@.blocks, height),
        },
{
    match block::by_height(store, height) {
        None => None,
        Some(row) => {
            let txs = tx::by_block(store, row.height);
            let ghost rv = row@;
            let v = BlockView::from(row, txs);
            proof {
                assert(BlockRowV { height: v.height, hash: v.hash@, time: v.time@, proposer: v.proposer@ }
                    == rv);
            }
            Some(v)
        },
    }
}

/// Serves a transaction looked up by hash; `None` when no indexed
/// transaction has it.
pub fn query_tx_by_hash(store: &Store, hash: &String) -> (r: Option<TxView>)
    ensures
        match r {
            Some(v) => store@.txs.contains(
                TxRowV { block: v.block, idx: v.index, hash: v.hash@ },
            ) && v.hash@ == hash@,
            None => forall|k: int|
                0 <= k < store@.txs.len() ==> (#[trigger] store@.txs[k]).hash != hash@,
        },
{
    match tx::by_hash(store, hash) {
        None => None,
        Some(row) => {
            let ghost rv = row@;
            let v = TxView { hash: row.hash, index: row.idx, block: row.block };
            proof {
                assert(TxRowV { block: v.block, idx: v.index, hash: v.hash@ } == rv);
            }
            Some(v)
        },
    }
}

} // verus!
