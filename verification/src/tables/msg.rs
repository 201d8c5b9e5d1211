//! The msg table: one row per message, keyed by `(block, tx, idx)`.
use vstd::prelude::*;

use crate::model::{Block, BlockV, Msg, MsgV, Tx, TxV};
use crate::tables::schema::{Store, StoreError, Txn};

verus! {

/// One persisted message row: its position, its type tag, and its raw
/// payload.
#[derive(Debug, PartialEq, Eq)]
pub struct MsgRow {
    pub block: u64,
    pub tx: u32,
    pub idx: u32,
    pub tag: String,
    pub data: Vec<u8>,
}

/// Mathematical image of a `MsgRow`.
pub struct MsgRowV {
    pub block: u64,
    pub tx: u32,
    pub idx: u32,
    pub tag: Seq<char>,
    pub data: Seq<u8>,
}

impl View for MsgRow {
    type V = MsgRowV;

    open spec fn view(&self) -> MsgRowV {
        MsgRowV {
            block: self.block,
            tx: self.tx,
            idx: self.idx,
            tag: self.tag@,
            data: self.data@,
        }
    }
}

/// The views of a sequence of msg rows.
pub open spec fn views_of_msg_rows(v: Seq<MsgRow>) -> Seq<MsgRowV> {
    v.map_values(|r: MsgRow| r@)
}

/// The row a decoded message persists as.
pub open spec fn spec_msg_row(b: BlockV, t: TxV, m: MsgV) -> MsgRowV {
    MsgRowV { block: b.height, tx: t.index, idx: m.index, tag: m.tag, data: m.data }
}

/// Whether some row of `msgs` has the given `(block, tx, idx)` key.
pub open spec fn has_msg_key(msgs: Seq<MsgRowV>, block: u64, tx: u32, idx: u32) -> bool {
    exists|i: int|
        0 <= i < msgs.len() && (#[trigger] msgs[i]).block == block && msgs[i].tx == tx
            && msgs[i].idx == idx
}

/// The rows of the given block, in stored order.
pub open spec fn msg_rows_of_block(msgs: Seq<MsgRowV>, block: u64) -> Seq<MsgRowV> {
    msgs.filter(|m: MsgRowV| m.block == block)
}

impl MsgRow {
    /// The row persisting one message of a block's transaction.
    pub fn new(block: &Block, tx: &Tx, msg: &Msg) -> (r: MsgRow)
        ensures
            r@ == spec_msg_row(block@, tx@, msg@),
    {
        MsgRow {
            block: block.height,
            tx: tx.index,
            idx: msg.index,
            tag: msg.tag.clone(),
            data: crate::fetch::copy_bytes(&msg.data),
        }
    }
}

/// Copies a msg row.
pub(crate) fn clone_row(row: &MsgRow) -> (r: MsgRow)
    ensures
        r@ == row@,
{
    MsgRow {
        block: row.block,
        tx: row.tx,
        idx: row.idx,
        tag: row.tag.clone(),
        data: crate::fetch::copy_bytes(&row.data),
    }
}

/// Adds a msg row to the pending transaction.
pub fn insert(txn: &mut Txn, row: &MsgRow) -> (r: Result<(), StoreError>)
    ensures
        r is Ok,
        final(txn)@.msgs == old(txn)@.msgs.push(row@),
        final(txn)@.blocks == old(txn)@.blocks,
        final(txn)@.txs == old(txn)@.txs,
        final(txn)@.address_msgs == old(txn)@.address_msgs,
{
    txn.msgs.push(clone_row(row));
    proof {
        assert(views_of_msg_rows(txn.msgs@) =~= views_of_msg_rows(old(txn).msgs@).push(row@));
    }
    Ok(())
}

/// Whether one of the first `upto` rows has the given key.
pub(crate) fn find_key(rows: &Vec<MsgRow>, upto: usize, block: u64, tx: u32, idx: u32) -> (r: bool)
    requires
        upto <= rows@.len(),
    ensures
        r == has_msg_key(views_of_msg_rows(rows@).take(upto as int), block, tx, idx),
{
    let ghost vs = views_of_msg_rows(rows@);
    let mut i: usize = 0;
    while i < upto
        invariant
            0 <= i <= upto <= rows@.len(),
            vs == views_of_msg_rows(rows@),
            forall|k: int|
                0 <= k < i ==> ((#[trigger] vs[k]).block != block || vs[k].tx != tx || vs[k].idx
                    != idx),
        decreases upto - i,
    {
        if rows[i].block == block && rows[i].tx == tx && rows[i].idx == idx {
            proof {
                assert((vs.take(upto as int)[i as int]).block == block && vs.take(
                    upto as int,
                )[i as int].tx == tx && vs.take(upto as int)[i as int].idx == idx);
            }
            return true;
        }
        i = i + 1;
    }
    false
}

/// All message rows of one block, in stored order.
#[verifier::loop_isolation(false)]
pub fn by_block(store: &Store, block: u64) -> (r: Vec<MsgRow>)
    ensures
        views_of_msg_rows(r@) == msg_rows_of_block(store@.msgs, block),
{
    let ghost vs = store@.msgs;
    let ghost pred = |m: MsgRowV| m.block == block;
    let mut out: Vec<MsgRow> = Vec::new();
    let mut i: usize = 0;
    proof {
        reveal(Seq::filter);
        assert(vs.take(0) =~= Seq::<MsgRowV>::empty());
        assert(views_of_msg_rows(out@) =~= vs.take(0).filter(pred));
    }
    while i < store.msgs.len()
        invariant
            0 <= i <= vs.len(),
            views_of_msg_rows(out@) == vs.take(i as int).filter(pred),
        decreases vs.len() - i,
    {
        proof {
            reveal(Seq::filter);
            assert(vs.take(i + 1).drop_last() =~= vs.take(i as int));
            assert(vs.take(i + 1).last() == vs[i as int]);
        }
        if store.msgs[i].block == block {
            let ghost out_old = out@;
            out.push(clone_row(&store.msgs[i]));
            proof {
                assert(views_of_msg_rows(out@) =~= views_of_msg_rows(out_old).push(vs[i as int]));
            }
        }
        i = i + 1;
    }
    proof {
        assert(vs.take(vs.len() as int) =~= vs);
    }
    out
}

} // verus!
