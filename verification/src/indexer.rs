//! Incremental sync: which height range still needs indexing, and how one
//! fetched block becomes one atomic commit. The long-running loop around
//! these decisions — fetch over the network, sleep, repeat — lives with
//! the process plumbing; everything it decides is here.
use vstd::prelude::*;

use crate::args::Args;
use crate::fetch::{self, DecodeError, RawBlock};
use crate::model::{Block, BlockV};
use crate::tables::address_msg::{self, spec_address_msg_row, AddressMsgRow, AddressMsgRowV};
use crate::tables::block::{self, has_height, max_height, spec_block_row, BlockRow};
use crate::tables::msg::{self, spec_msg_row, MsgRow, MsgRowV};
use crate::tables::schema::{spec_commit, store_wf, RowsV, Store, StoreError, Txn};
use crate::tables::tx::{self, spec_tx_row, TxRow, TxRowV};

verus! {

/// Why indexing one height failed: the block did not decode, or its
/// commit hit a uniqueness conflict.
#[derive(Debug, Clone, Copy, PartialEq, Eq)]
pub enum IndexError {
    Decode(DecodeError),
    Store(StoreError),
}

/// The tx rows a decoded block persists as, in transaction order.
pub open spec fn spec_tx_rows(b: BlockV) -> Seq<TxRowV> {
    Seq::new(b.txs.len(), |i: int| spec_tx_row(b, b.txs[i]))
}

/// The msg rows of one transaction, in message order.
pub open spec fn msg_rows_of_tx(b: BlockV, t: crate::model::TxV) -> Seq<MsgRowV> {
    Seq::new(t.msgs.len(), |j: int| spec_msg_row(b, t, t.msgs[j]))
}

/// The msg rows of the first `i` transactions, in order.
pub open spec fn msg_rows_upto(b: BlockV, i: int) -> Seq<MsgRowV>
    decreases i,
{
    if i <= 0 {
        Seq::empty()
    } else {
        msg_rows_upto(b, i - 1) + msg_rows_of_tx(b, b.txs[i - 1])
    }
}

/// The msg rows a decoded block persists as.
pub open spec fn spec_msg_rows(b: BlockV) -> Seq<MsgRowV> {
    msg_rows_upto(b, b.txs.len() as int)
}

/// The association rows of one message: one per participant address.
pub open spec fn addr_rows_of_msg(b: BlockV, t: crate::model::TxV, m: crate::model::MsgV) -> Seq<
    AddressMsgRowV,
> {
    Seq::new(m.addresses.len(), |k: int| spec_address_msg_row(b, t, m, m.addresses[k]))
}

/// The association rows of the first `j` messages of one transaction.
pub open spec fn addr_rows_of_tx_upto(b: BlockV, t: crate::model::TxV, j: int) -> Seq<
    AddressMsgRowV,
>
    decreases j,
{
    if j <= 0 {
        Seq::empty()
    } else {
        addr_rows_of_tx_upto(b, t, j - 1) + addr_rows_of_msg(b, t, t.msgs[j - 1])
    }
}

/// The association rows of the first `i` transactions.
pub open spec fn addr_rows_upto(b: BlockV, i: int) -> Seq<AddressMsgRowV>
    decreases i,
{
    if i <= 0 {
        Seq::empty()
    } else {
        addr_rows_upto(b, i - 1) + addr_rows_of_tx_upto(
            b,
            b.txs[i - 1],
            b.txs[i - 1].msgs.len() as int,
        )
    }
}

/// The association rows a decoded block persists as.
pub open spec fn spec_addr_rows(b: BlockV) -> Seq<AddressMsgRowV> {
    addr_rows_upto(b, b.txs.len() as int)
}

/// A decoded block's full record tree: its block row, its tx rows, its
/// msg rows and its association rows, each in order.
pub open spec fn block_rows(b: BlockV) -> RowsV {
    RowsV {
        blocks: seq![spec_block_row(b)],
        txs: spec_tx_rows(b),
        msgs: spec_msg_rows(b),
        address_msgs: spec_addr_rows(b),
    }
}

/// Stages a decoded block's whole record tree in one transaction and
/// commits it: the block, its transactions, their messages and the
/// address associations become visible together, or — on a conflict —
/// the store is left exactly as it was.
#[verifier::loop_isolation(false)]
pub fn insert_block(store: &mut Store, block: &Block) -> (r: Result<(), StoreError>)
    requires
        store_wf(old(store)@),
    ensures
        final(store)@ == spec_commit(old(store)@, block_rows(block@)).0,
        r == spec_commit(old(store)@, block_rows(block@)).1,
        store_wf(final(store)@),
{
    let ghost b = block@;
    let mut txn = Txn::new();
    let row = BlockRow::new(block);
    let _ = block::insert(&mut txn, &row);
    proof {
        assert(txn@.blocks =~= seq![spec_block_row(b)]);
        assert(txn@.txs =~= spec_tx_rows(b).take(0));
        assert(txn@.msgs =~= msg_rows_upto(b, 0));
        assert(txn@.address_msgs =~= addr_rows_upto(b, 0));
    }
    let mut i: usize = 0;
    while i < block.txs.len()
        invariant
            0 <= i <= b.txs.len(),
            txn@.blocks == seq![spec_block_row(b)],
            txn@.txs == spec_tx_rows(b).take(i as int),
            txn@.msgs == msg_rows_upto(b, i as int),
            txn@.address_msgs == addr_rows_upto(b, i as int),
        decreases b.txs.len() - i,
    {
        let tx = &block.txs[i];
        let ghost tv = b.txs[i as int];
        let trow = TxRow::new(block, tx);
        let _ = tx::insert(&mut txn, &trow);
        proof {
            assert(txn@.txs =~= spec_tx_rows(b).take(i + 1));
            assert(addr_rows_of_tx_upto(b, tv, 0) =~= Seq::<AddressMsgRowV>::empty());
            assert(txn@.msgs =~= msg_rows_upto(b, i as int) + msg_rows_of_tx(b, tv).take(0));
            assert(txn@.address_msgs =~= addr_rows_upto(b, i as int) + addr_rows_of_tx_upto(
                b,
                tv,
                0,
            ));
        }
        let mut j: usize = 0;
        while j < tx.msgs.len()
            invariant
                0 <= j <= tv.msgs.len(),
                txn@.blocks == seq![spec_block_row(b)],
                txn@.txs == spec_tx_rows(b).take(i as int + 1),
                txn@.msgs == msg_rows_upto(b, i as int) + msg_rows_of_tx(b, tv).take(j as int),
                txn@.address_msgs == addr_rows_upto(b, i as int) + addr_rows_of_tx_upto(
                    b,
                    tv,
                    j as int,
                ),
            decreases tv.msgs.len() - j,
        {
            let m = &tx.msgs[j];
            let ghost mv = tv.msgs[j as int];
            let mrow = MsgRow::new(block, tx, m);
            let _ = msg::insert(&mut txn, &mrow);
            proof {
                assert(txn@.msgs =~= msg_rows_upto(b, i as int) + msg_rows_of_tx(b, tv).take(
                    j + 1,
                ));
                assert(txn@.address_msgs =~= addr_rows_upto(b, i as int) + addr_rows_of_tx_upto(
                    b,
                    tv,
                    j as int,
                ) + addr_rows_of_msg(b, tv, mv).take(0));
            }
            let mut k: usize = 0;
            while k < m.addresses.len()
                invariant
                    0 <= k <= mv.addresses.len(),
                    txn@.blocks == seq![spec_block_row(b)],
                    txn@.txs == spec_tx_rows(b).take(i as int + 1),
                    txn@.msgs == msg_rows_upto(b, i as int) + msg_rows_of_tx(b, tv).take(
                        j as int + 1,
                    ),
                    txn@.address_msgs == addr_rows_upto(b, i as int) + addr_rows_of_tx_upto(
                        b,
                        tv,
                        j as int,
                    ) + addr_rows_of_msg(b, tv, mv).take(k as int),
                decreases mv.addresses.len() - k,
            {
                let arow = AddressMsgRow::new(block, tx, m, &m.addresses[k]);
                let _ = address_msg::insert(&mut txn, &arow);
                proof {
                    assert(txn@.address_msgs =~= addr_rows_upto(b, i as int)
                        + addr_rows_of_tx_upto(b, tv, j as int) + addr_rows_of_msg(
                        b,
                        tv,
                        mv,
                    ).take(k + 1));
                }
                k = k + 1;
            }
            proof {
                assert(addr_rows_of_msg(b, tv, mv).take(mv.addresses.len() as int)
                    =~= addr_rows_of_msg(b, tv, mv));
                assert(txn@.address_msgs =~= addr_rows_upto(b, i as int) + addr_rows_of_tx_upto(
                    b,
                    tv,
                    j + 1,
                ));
            }
            j = j + 1;
        }
        proof {
            assert(msg_rows_of_tx(b, tv).take(tv.msgs.len() as int) =~= msg_rows_of_tx(b, tv));
            assert(txn@.msgs =~= msg_rows_upto(b, i + 1));
            assert(txn@.address_msgs =~= addr_rows_upto(b, i + 1));
        }
        i = i + 1;
    }
    proof {
        assert(spec_tx_rows(b).take(b.txs.len() as int) =~= spec_tx_rows(b));
        assert(txn@ =~= block_rows(b));
    }
    store.commit(txn)
}

/// Decodes one fetched raw block and persists it atomically.
pub fn index_block(store: &mut Store, raw: &RawBlock) -> (r: Result<(), IndexError>)
    requires
        store_wf(old(store)@),
    ensures
        store_wf(final(store)@),
        match r {
            Ok(_) => fetch::spec_block_to_model(raw@) matches Ok(b) && spec_commit(
                old(store)@,
                block_rows(b),
            ) == (final(store)@, Ok::<(), StoreError>(())),
            Err(IndexError::Decode(e)) => fetch::spec_block_to_model(raw@) == Err::<
                BlockV,
                DecodeError,
            >(e) && final(store)@ == old(store)@,
            Err(IndexError::Store(e)) => fetch::spec_block_to_model(raw@) matches Ok(b)
                && spec_commit(old(store)@, block_rows(b)) == (
                old(store)@,
                Err::<(), StoreError>(e),
            ) && final(store)@ == old(store)@,
        },
{
    match fetch::block_to_model(raw) {
        Ok(block) => match insert_block(store, &block) {
            Ok(_) => Ok(()),
            Err(e) => Err(IndexError::Store(e)),
        },
        Err(e) => Err(IndexError::Decode(e)),
    }
}

/// The next unindexed height: one past the persisted top, but never below
/// the configured floor. An empty store starts at the floor. A top at the
/// greatest representable height cannot be advanced past.
pub open spec fn spec_lower_bound(top: Option<u64>, floor: u64) -> u64 {
    match top {
        None => floor,
        Some(t) => if t == u64::MAX {
            u64::MAX
        } else if t + 1 > floor {
            (t + 1) as u64
        } else {
            floor
        },
    }
}

/// The last height worth fetching: the live chain tip, but never above
/// the configured ceiling; without a live tip, the ceiling alone.
pub open spec fn spec_upper_bound(live: Option<u64>, ceiling: u64) -> u64 {
    match live {
        None => ceiling,
        Some(l) => if l < ceiling {
            l
        } else {
            ceiling
        },
    }
}

/// The first height of the next range to index.
pub fn index_history_lower_bound(store: &Store, args: &Args) -> (r: u64)
    ensures
        r == spec_lower_bound(max_height(store@.blocks), args.from_block as u64),
{
    let floor: u64 = args.from_block as u64;
    match block::top(store) {
        None => floor,
        Some(row) => {
            if row.height == u64::MAX {
                u64::MAX
            } else if row.height + 1 > floor {
                row.height + 1
            } else {
                floor
            }
        },
    }
}

/// The last height of the next range to index. The live chain tip comes
/// from the chain client; `None` stands for a failed tip query, which
/// falls back to the configured ceiling.
pub fn index_history_upper_bound(live: Option<u64>, args: &Args) -> (r: u64)
    ensures
        r == spec_upper_bound(live, args.to_block as u64),
{
    let ceiling: u64 = args.to_block as u64;
    match live {
        None => ceiling,
        Some(l) => if l < ceiling {
            l
        } else {
            ceiling
        },
    }
}

/// The next inclusive height range to index, or `None` when the store has
/// caught up with the tip — the idle state, in which no block is fetched,
/// decoded or persisted until the next cycle.
pub fn next_range(store: &Store, args: &Args, live: Option<u64>) -> (r: Option<(u64, u64)>)
    ensures
        ({
            let lb = spec_lower_bound(max_height(store@.blocks), args.from_block as u64);
            let ub = spec_upper_bound(live, args.to_block as u64);
            if lb <= ub {
                r == Some::<(u64, u64)>((lb, ub))
            } else {
                r is None
            }
        }),
{
    let lb = index_history_lower_bound(store, args);
    let ub = index_history_upper_bound(live, args);
    if lb <= ub {
        Some((lb, ub))
    } else {
        None
    }
}

/// Law: the bounds are exactly the specified extremes — the lower bound
/// is the maximum of top-plus-one and the floor (the floor alone on an
/// empty store), the upper bound the minimum of the live tip and the
/// ceiling (the ceiling alone when the tip query failed).
pub proof fn lemma_range_correctness(top: Option<u64>, floor: u64, live: Option<u64>, ceiling: u64)
    ensures
        top is None ==> spec_lower_bound(top, floor) == floor,
        top matches Some(t) ==> (t < u64::MAX ==> spec_lower_bound(top, floor) as int
            == vstd::math::max(t as int + 1, floor as int)),
        live is None ==> spec_upper_bound(live, ceiling) == ceiling,
        live matches Some(l) ==> spec_upper_bound(live, ceiling) as int == vstd::math::min(
            l as int,
            ceiling as int,
        ),
{
}

/// Law: a block whose height is already indexed commits as a conflict,
/// and the store keeps the first block untouched.
pub proof fn lemma_duplicate_height_conflicts(s: RowsV, b: BlockV)
    requires
        has_height(s.blocks, b.height),
    ensures
        spec_commit(s, block_rows(b)) == (s, Err::<(), StoreError>(StoreError::Conflict)),
{
    assert((block_rows(b).blocks[0]).height == b.height);
}

/// The indexed heights form a contiguous range starting at the floor: no
/// height below the floor is indexed, and every height from the floor up
/// to the persisted top is.
pub open spec fn indexed_range(s: RowsV, floor: u64) -> bool {
    &&& forall|h: u64| has_height(s.blocks, h) ==> floor <= h
    &&& match max_height(s.blocks) {
        None => true,
        Some(t) => forall|h: u64| floor <= h <= t ==> has_height(s.blocks, h),
    }
}

/// The greatest height of a row set extended by one block row.
proof fn lemma_max_height_append(blocks: Seq<crate::tables::block::BlockRowV>, r: crate::tables::block::BlockRowV)
    ensures
        max_height(blocks.push(r)) == match max_height(blocks) {
            None => Some(r.height),
            Some(m) => Some(if r.height > m { r.height } else { m }),
        },
{
    assert(blocks.push(r).drop_last() =~= blocks);
    assert(blocks.push(r).last() == r);
}

/// Law: the indexed heights stay a contiguous range. Committing a block
/// at exactly the next unindexed height — what the sync loop does, one
/// height at a time in increasing order — leaves no gap and re-indexes
/// nothing.
pub proof fn lemma_contiguity_preserved(s: RowsV, b: BlockV, floor: u64)
    requires
        indexed_range(s, floor),
        max_height(s.blocks) matches Some(t) ==> t < u64::MAX,
        b.height == spec_lower_bound(max_height(s.blocks), floor),
        spec_commit(s, block_rows(b)).1 is Ok,
    ensures
        indexed_range(spec_commit(s, block_rows(b)).0, floor),
        max_height(spec_commit(s, block_rows(b)).0.blocks) == Some(b.height),
{
    let row = spec_block_row(b);
    let nb = spec_commit(s, block_rows(b)).0.blocks;
    assert(nb =~= s.blocks.push(row));
    lemma_max_height_append(s.blocks, row);
    match max_height(s.blocks) {
        None => {
            assert(max_height(nb) == Some(b.height));
        },
        Some(t) => {
            if s.blocks.len() > 0 {
                crate::tables::block::lemma_max_height(s.blocks);
            }
            assert(b.height == t + 1);
            assert(max_height(nb) == Some(b.height));
        },
    }
    assert forall|h: u64| has_height(nb, h) implies floor <= h by {
        let i = choose|i: int| 0 <= i < nb.len() && (#[trigger] nb[i]).height == h;
        if i < s.blocks.len() {
            assert(has_height(s.blocks, h));
        }
    }
    assert forall|h: u64| floor <= h <= b.height implies has_height(nb, h) by {
        if h == b.height {
            assert(nb[s.blocks.len() as int].height == h);
        } else {
            match max_height(s.blocks) {
                None => {
                    assert(b.height == floor);
                },
                Some(t) => {
                    assert(floor <= h <= t);
                    assert(has_height(s.blocks, h));
                    let i = choose|i: int|
                        0 <= i < s.blocks.len() && (#[trigger] s.blocks[i]).height == h;
                    assert(nb[i].height == h);
                },
            }
        }
    }
}

/// Law: after a successful commit of a block, its height is visible.
pub proof fn lemma_insert_block_visible(s: RowsV, b: BlockV)
    requires
        spec_commit(s, block_rows(b)).1 is Ok,
    ensures
        has_height(spec_commit(s, block_rows(b)).0.blocks, b.height),
{
    let nb = spec_commit(s, block_rows(b)).0.blocks;
    assert(nb[s.blocks.len() as int].height == b.height);
}

} // verus!


