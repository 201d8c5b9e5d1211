//! The tx table: one row per transaction, keyed by `(block, idx)`.
use vstd::prelude::*;

use crate::model::{Block, BlockV, Tx, TxV};
use crate::tables::schema::{Store, StoreError, Txn};

verus! {

/// One persisted transaction row.
#[derive(Debug, PartialEq, Eq)]
pub struct TxRow {
    pub block: u64,
    pub idx: u32,
    pub hash: String,
}

/// Mathematical image of a `TxRow`.
pub struct TxRowV {
    pub block: u64,
    pub idx: u32,
    pub hash: Seq<char>,
}

impl View for TxRow {
    type V = TxRowV;

    open spec fn view(&self) -> TxRowV {
        TxRowV { block: self.block, idx: self.idx, hash: self.hash@ }
    }
}

/// The views of a sequence of tx rows.
pub open spec fn views_of_tx_rows(v: Seq<TxRow>) -> Seq<TxRowV> {
    v.map_values(|r: TxRow| r@)
}

/// The row a decoded transaction persists as.
pub open spec fn spec_tx_row(b: BlockV, t: TxV) -> TxRowV {
    TxRowV { block: b.height, idx: t.index, hash: t.hash }
}

/// Whether some row of `txs` has the given `(block, idx)` key.
pub open spec fn has_tx_key(txs: Seq<TxRowV>, block: u64, idx: u32) -> bool {
    exists|i: int|
        0 <= i < txs.len() && (#[trigger] txs[i]).block == block && txs[i].idx == idx
}

/// The rows of the given block, in stored order.
pub open spec fn tx_rows_of_block(txs: Seq<TxRowV>, block: u64) -> Seq<TxRowV> {
    txs.filter(|t: TxRowV| t.block == block)
}

impl TxRow {
    /// The row persisting one of a block's transactions.
    pub fn new(block: &Block, tx: &Tx) -> (r: TxRow)
        ensures
            r@ == spec_tx_row(block@, tx@),
    {
        TxRow { block: block.height, idx: tx.index, hash: tx.hash.clone() }
    }
}

/// Copies a tx row.
pub(crate) fn clone_row(row: &TxRow) -> (r: TxRow)
    ensures
        r@ == row@,
{
    TxRow { block: row.block, idx: row.idx, hash: row.hash.clone() }
}

/// Adds a tx row to the pending transaction.
pub fn insert(txn: &mut Txn, row: &TxRow) -> (r: Result<(), StoreError>)
    ensures
        r is Ok,
        final(txn)@.txs == old(txn)@.txs.push(row@),
        final(txn)@.blocks == old(txn)@.blocks,
        final(txn)@.msgs == old(txn)@.msgs,
        final(txn)@.address_msgs == old(txn)@.address_msgs,
{
    txn.txs.push(clone_row(row));
    proof {
        assert(views_of_tx_rows(txn.txs@) =~= views_of_tx_rows(old(txn).txs@).push(row@));
    }
    Ok(())
}

/// Whether one of the first `upto` rows has the given key.
pub(crate) fn find_key(rows: &Vec<TxRow>, upto: usize, block: u64, idx: u32) -> (r: bool)
    requires
        upto <= rows@.len(),
    ensures
        r == has_tx_key(views_of_tx_rows(rows@).take(upto as int), block, idx),
{
    let ghost vs = views_of_tx_rows(rows@);
    let mut i: usize = 0;
    while i < upto
        invariant
            0 <= i <= upto <= rows@.len(),
            vs == views_of_tx_rows(rows@),
            forall|k: int|
                0 <= k < i ==> ((#[trigger] vs[k]).block != block || vs[k].idx != idx),
        decreases upto - i,
    {
        if rows[i].block == block && rows[i].idx == idx {
            proof {
                assert((vs.take(upto as int)[i as int]).block == block && vs.take(
                    upto as int,
                )[i as int].idx == idx);
            }
            return true;
        }
        i = i + 1;
    }
    false
}

/// Looks a transaction up by hash; `None` when no row has it.
#[verifier::loop_isolation(false)]
pub fn by_hash(store: &Store, hash: &String) -> (r: Option<TxRow>)
    ensures
        match r {
            Some(row) => store@.txs.contains(row@) && row@.hash == hash@,
            None => forall|k: int|
                0 <= k < store@.txs.len() ==> (#[trigger] store@.txs[k]).hash != hash@,
        },
{
    let mut i: usize = 0;
    while i < store.txs.len()
        invariant
            0 <= i <= store.txs@.len(),
            forall|k: int| 0 <= k < i ==> (#[trigger] store@.txs[k]).hash != hash@,
        decreases store.txs@.len() - i,
    {
        if store.txs[i].hash == *hash {
            let row = clone_row(&store.txs[i]);
            proof {
                assert(store@.txs[i as int] == row@);
            }
            return Some(row);
        }
        i = i + 1;
    }
    None
}

/// All transaction rows of one block, in stored order.
#[verifier::loop_isolation(false)]
pub fn by_block(store: &Store, block: u64) -> (r: Vec<TxRow>)
    ensures
        views_of_tx_rows(r@) == tx_rows_of_block(store@.txs, block),
{
    let ghost vs = store@.txs;
    let ghost pred = |t: TxRowV| t.block == block;
    let mut out: Vec<TxRow> = Vec::new();
    let mut i: usize = 0;
    proof {
        reveal(Seq::filter);
        assert(vs.take(0) =~= Seq::<TxRowV>::empty());
        assert(views_of_tx_rows(out@) =~= vs.take(0).filter(pred));
    }
    while i < store.txs.len()
        invariant
            0 <= i <= vs.len(),
            views_of_tx_rows(out@) == vs.take(i as int).filter(pred),
        decreases vs.len() - i,
    {
        proof {
            reveal(Seq::filter);
            assert(vs.take(i + 1).drop_last() =~= vs.take(i as int));
            assert(vs.take(i + 1).last() == vs[i as int]);
        }
        if store.txs[i].block == block {
            let ghost out_old = out@;
            out.push(clone_row(&store.txs[i]));
            proof {
                assert(views_of_tx_rows(out@) =~= views_of_tx_rows(out_old).push(vs[i as int]));
            }
        }
        i = i + 1;
    }
    proof {
        assert(vs.take(vs.len() as int) =~= vs);
    }
    out
}

} // verus!
