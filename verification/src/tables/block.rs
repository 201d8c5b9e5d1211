//! The block table: one row per block, keyed by height.
use vstd::prelude::*;

use crate::model::{Block, BlockV};
use crate::tables::schema::{Store, StoreError, Txn};

verus! {

/// One persisted block row.
#[derive(Debug, PartialEq, Eq)]
pub struct BlockRow {
    pub height: u64,
    pub hash: String,
    pub time: String,
    pub proposer: String,
}

/// Mathematical image of a `BlockRow`.
pub struct BlockRowV {
    pub height: u64,
    pub hash: Seq<char>,
    pub time: Seq<char>,
    pub proposer: Seq<char>,
}

impl View for BlockRow {
    type V = BlockRowV;

    open spec fn view(&self) -> BlockRowV {
        BlockRowV {
            height: self.height,
            hash: self.hash@,
            time: self.time@,
            proposer: self.proposer@,
        }
    }
}

/// The views of a sequence of block rows.
pub open spec fn views_of_block_rows(v: Seq<BlockRow>) -> Seq<BlockRowV> {
    v.map_values(|r: BlockRow| r@)
}

/// The row a decoded block persists as.
pub open spec fn spec_block_row(b: BlockV) -> BlockRowV {
    BlockRowV { height: b.height, hash: b.hash, time: b.time, proposer: b.proposer }
}

/// Whether some row of `blocks` has the given height.
pub open spec fn has_height(blocks: Seq<BlockRowV>, height: u64) -> bool {
    exists|i: int| 0 <= i < blocks.len() && (#[trigger] blocks[i]).height == height
}

/// The greatest height among the rows, if any.
pub open spec fn max_height(blocks: Seq<BlockRowV>) -> Option<u64>
    decreases blocks.len(),
{
    if blocks.len() == 0 {
        None
    } else {
        match max_height(blocks.drop_last()) {
            None => Some(blocks.last().height),
            Some(m) => Some(
                if blocks.last().height > m {
                    blocks.last().height
                } else {
                    m
                },
            ),
        }
    }
}

/// The greatest height is attained by some row and bounds every row.
pub proof fn lemma_max_height(blocks: Seq<BlockRowV>)
    requires
        blocks.len() > 0,
    ensures
        max_height(blocks) matches Some(m) && has_height(blocks, m) && forall|k: int|
            0 <= k < blocks.len() ==> (#[trigger] blocks[k]).height <= m,
    decreases blocks.len(),
{
    assert(forall|k: int| 0 <= k < blocks.len() - 1 ==> blocks.drop_last()[k] == #[trigger] blocks[k]);
    if blocks.len() > 1 {
        lemma_max_height(blocks.drop_last());
        let m0 = max_height(blocks.drop_last())->0;
        let k0 = choose|k: int|
            0 <= k < blocks.drop_last().len() && (#[trigger] blocks.drop_last()[k]).height == m0;
        assert(blocks[k0].height == m0);
        assert(blocks[blocks.len() - 1] == blocks.last());
        let m = max_height(blocks)->0;
        if blocks.last().height > m0 {
            assert(blocks[blocks.len() - 1].height == m);
        } else {
            assert(blocks[k0].height == m);
        }
    } else {
        assert(blocks[0] == blocks.last());
        assert(blocks[0].height == max_height(blocks)->0);
    }
}

impl BlockRow {
    /// The row persisting a decoded block's header data.
    pub fn new(block: &Block) -> (r: BlockRow)
        ensures
            r@ == spec_block_row(block@),
    {
        BlockRow {
            height: block.height,
            hash: block.hash.clone(),
            time: block.time.clone(),
            proposer: block.proposer.clone(),
        }
    }
}

/// Copies a block row.
pub(crate) fn clone_row(row: &BlockRow) -> (r: BlockRow)
    ensures
        r@ == row@,
{
    BlockRow {
        height: row.height,
        hash: row.hash.clone(),
        time: row.time.clone(),
        proposer: row.proposer.clone(),
    }
}

/// Adds a block row to the pending transaction. Nothing can fail here:
/// conflicts surface when the transaction commits.
pub fn insert(txn: &mut Txn, row: &BlockRow) -> (r: Result<(), StoreError>)
    ensures
        r is Ok,
        final(txn)@.blocks == old(txn)@.blocks.push(row@),
        final(txn)@.txs == old(txn)@.txs,
        final(txn)@.msgs == old(txn)@.msgs,
        final(txn)@.address_msgs == old(txn)@.address_msgs,
{
    txn.blocks.push(clone_row(row));
    proof {
        assert(views_of_block_rows(txn.blocks@) =~= views_of_block_rows(old(txn).blocks@).push(
            row@,
        ));
    }
    Ok(())
}

/// Whether one of the first `upto` rows has the given height.
pub(crate) fn find_height(rows: &Vec<BlockRow>, upto: usize, height: u64) -> (r: bool)
    requires
        upto <= rows@.len(),
    ensures
        r == has_height(views_of_block_rows(rows@).take(upto as int), height),
{
    let ghost vs = views_of_block_rows(rows@);
    let mut i: usize = 0;
    while i < upto
        invariant
            0 <= i <= upto <= rows@.len(),
            vs == views_of_block_rows(rows@),
            forall|k: int| 0 <= k < i ==> (#[trigger] vs[k]).height != height,
        decreases upto - i,
    {
        if rows[i].height == height {
            proof {
                assert(vs.take(upto as int)[i as int].height == height);
            }
            return true;
        }
        i = i + 1;
    }
    false
}

/// Looks a block up by hash; `None` when no row has it.
#[verifier::loop_isolation(false)]
pub fn by_hash(store: &Store, hash: &String) -> (r: Option<BlockRow>)
    ensures
        match r {
            Some(row) => store@.blocks.contains(row@) && row@.hash == hash@,
            None => forall|k: int|
                0 <= k < store@.blocks.len() ==> (#[trigger] store@.blocks[k]).hash != hash@,
        },
{
    let mut i: usize = 0;
    while i < store.blocks.len()
        invariant
            0 <= i <= store.blocks@.len(),
            forall|k: int| 0 <= k < i ==> (#[trigger] store@.blocks[k]).hash != hash@,
        decreases store.blocks@.len() - i,
    {
        if store.blocks[i].hash == *hash {
            let row = clone_row(&store.blocks[i]);
            proof {
                assert(store@.blocks[i as int] == row@);
            }
            return Some(row);
        }
        i = i + 1;
    }
    None
}

/// Looks a block up by height; `None` when the height is not indexed.
#[verifier::loop_isolation(false)]
pub fn by_height(store: &Store, height: u64) -> (r: Option<BlockRow>)
    ensures
        match r {
            Some(row) => store@.blocks.contains(row@) && row@.height == height,
            None => !has_height(store@.blocks, height),
        },
{
    let mut i: usize = 0;
    while i < store.blocks.len()
        invariant
            0 <= i <= store.blocks@.len(),
            forall|k: int| 0 <= k < i ==> (#[trigger] store@.blocks[k]).height != height,
        decreases store.blocks@.len() - i,
    {
        if store.blocks[i].height == height {
            let row = clone_row(&store.blocks[i]);
            proof {
                assert(store@.blocks[i as int] == row@);
            }
            return Some(row);
        }
        i = i + 1;
    }
    None
}

/// The row with the greatest height — the resumption anchor for the bound
/// tracker — or `None` on an empty store.
#[verifier::loop_isolation(false)]
pub fn top(store: &Store) -> (r: Option<BlockRow>)
    ensures
        match r {
            Some(row) => store@.blocks.contains(row@) && Some(row@.height) == max_height(
                store@.blocks,
            ) && forall|k: int|
                0 <= k < store@.blocks.len() ==> (#[trigger] store@.blocks[k]).height
                    <= row@.height,
            None => store@.blocks.len() == 0,
        },
{
    if store.blocks.len() == 0 {
        return None;
    }
    let ghost vs = store@.blocks;
    let mut best: usize = 0;
    let mut i: usize = 1;
    proof {
        assert(max_height(Seq::<BlockRowV>::empty()) is None);
        assert(vs.take(1).drop_last() =~= Seq::<BlockRowV>::empty());
        assert(vs.take(1).last() == vs[0]);
    }
    while i < store.blocks.len()
        invariant
            1 <= i <= vs.len(),
            best < i,
            max_height(vs.take(i as int)) == Some(vs[best as int].height),
        decreases vs.len() - i,
    {
        proof {
            assert(vs.take(i + 1).drop_last() =~= vs.take(i as int));
            assert(vs.take(i + 1).last() == vs[i as int]);
        }
        if store.blocks[i].height > store.blocks[best].height {
            best = i;
        }
        i = i + 1;
    }
    proof {
        assert(vs.take(vs.len() as int) =~= vs);
        lemma_max_height(vs);
    }
    let row = clone_row(&store.blocks[best]);
    proof {
        assert(store@.blocks[best as int] == row@);
    }
    Some(row)
}

} // verus!
