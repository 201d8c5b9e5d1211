//! The relational store: the four tables of the schema, the pending
//! write transaction, and the atomic commit. One block's whole record
//! tree is committed in a single transaction, so readers see either the
//! complete block or nothing of it.
use vstd::prelude::*;

use crate::tables::address_msg::{views_of_address_msg_rows, AddressMsgRow, AddressMsgRowV};
use crate::tables::block::{has_height, views_of_block_rows, BlockRow, BlockRowV};
use crate::tables::msg::{has_msg_key, views_of_msg_rows, MsgRow, MsgRowV};
use crate::tables::tx::{has_tx_key, views_of_tx_rows, TxRow, TxRowV};

verus! {

/// Why a store write failed. A uniqueness violation is the only failure
/// the relational model itself can produce; it signals a re-index bug and
/// is never silently ignored.
#[derive(Debug, Clone, Copy, PartialEq, Eq)]
pub enum StoreError {
    Conflict,
}

/// The four tables, as one value.
pub struct Store {
    pub blocks: Vec<BlockRow>,
    pub txs: Vec<TxRow>,
    pub msgs: Vec<MsgRow>,
    pub address_msgs: Vec<AddressMsgRow>,
}

/// A pending transaction: rows staged for one atomic commit. Dropping it
/// uncommitted leaves the store untouched.
pub struct Txn {
    pub blocks: Vec<BlockRow>,
    pub txs: Vec<TxRow>,
    pub msgs: Vec<MsgRow>,
    pub address_msgs: Vec<AddressMsgRow>,
}

/// Mathematical image of a row set — of the store and of a transaction
/// alike.
#[verifier::ext_equal]
pub struct RowsV {
    pub blocks: Seq<BlockRowV>,
    pub txs: Seq<TxRowV>,
    pub msgs: Seq<MsgRowV>,
    pub address_msgs: Seq<AddressMsgRowV>,
}

impl View for Store {
    type V = RowsV;

    open spec fn view(&self) -> RowsV {
        RowsV {
            blocks: views_of_block_rows(self.blocks@),
            txs: views_of_tx_rows(self.txs@),
            msgs: views_of_msg_rows(self.msgs@),
            address_msgs: views_of_address_msg_rows(self.address_msgs@),
        }
    }
}

impl View for Txn {
    type V = RowsV;

    open spec fn view(&self) -> RowsV {
        RowsV {
            blocks: views_of_block_rows(self.blocks@),
            txs: views_of_tx_rows(self.txs@),
            msgs: views_of_msg_rows(self.msgs@),
            address_msgs: views_of_address_msg_rows(self.address_msgs@),
        }
    }
}

/// The empty row set.
pub open spec fn empty_rows() -> RowsV {
    RowsV {
        blocks: Seq::empty(),
        txs: Seq::empty(),
        msgs: Seq::empty(),
        address_msgs: Seq::empty(),
    }
}

/// Both row sets, table by table, the left one first.
pub open spec fn rows_append(s: RowsV, t: RowsV) -> RowsV {
    RowsV {
        blocks: s.blocks + t.blocks,
        txs: s.txs + t.txs,
        msgs: s.msgs + t.msgs,
        address_msgs: s.address_msgs + t.address_msgs,
    }
}

/// The schema's uniqueness invariant: no two block rows share a height,
/// no two tx rows share a `(block, idx)` key, no two msg rows share a
/// `(block, tx, idx)` key. Association rows carry no key of their own.
pub open spec fn store_wf(s: RowsV) -> bool {
    &&& forall|i: int, j: int|
        0 <= i < j < s.blocks.len() ==> (#[trigger] s.blocks[i]).height != (
        #[trigger] s.blocks[j]).height
    &&& forall|i: int, j: int|
        0 <= i < j < s.txs.len() ==> ((#[trigger] s.txs[i]).block != (#[trigger] s.txs[j]).block
            || s.txs[i].idx != s.txs[j].idx)
    &&& forall|i: int, j: int|
        0 <= i < j < s.msgs.len() ==> ((#[trigger] s.msgs[i]).block != (#[trigger] s.msgs[j]).block
            || s.msgs[i].tx != s.msgs[j].tx || s.msgs[i].idx != s.msgs[j].idx)
}

/// Whether committing `t` onto `s` would violate uniqueness: some staged
/// row's key already exists in the store, or twice within the staged rows.
pub open spec fn has_conflict(s: RowsV, t: RowsV) -> bool {
    ||| exists|i: int| 0 <= i < t.blocks.len() && has_height(s.blocks, (#[trigger] t.blocks[i]).height)
    ||| exists|i: int, j: int|
        0 <= i < j < t.blocks.len() && (#[trigger] t.blocks[i]).height == (
        #[trigger] t.blocks[j]).height
    ||| exists|i: int|
        0 <= i < t.txs.len() && has_tx_key(s.txs, (#[trigger] t.txs[i]).block, t.txs[i].idx)
    ||| exists|i: int, j: int|
        0 <= i < j < t.txs.len() && (#[trigger] t.txs[i]).block == (#[trigger] t.txs[j]).block
            && t.txs[i].idx == t.txs[j].idx
    ||| exists|i: int|
        0 <= i < t.msgs.len() && has_msg_key(
            s.msgs,
            (#[trigger] t.msgs[i]).block,
            t.msgs[i].tx,
            t.msgs[i].idx,
        )
    ||| exists|i: int, j: int|
        0 <= i < j < t.msgs.len() && (#[trigger] t.msgs[i]).block == (#[trigger] t.msgs[j]).block
            && t.msgs[i].tx == t.msgs[j].tx && t.msgs[i].idx == t.msgs[j].idx
}

/// What committing a transaction does: on a uniqueness conflict the store
/// is left exactly as it was and the commit reports it; otherwise every
/// staged row is appended, in order.
pub open spec fn spec_commit(s: RowsV, t: RowsV) -> (RowsV, Result<(), StoreError>) {
    if has_conflict(s, t) {
        (s, Err(StoreError::Conflict))
    } else {
        (rows_append(s, t), Ok(()))
    }
}

/// Creates the empty store. The schema exists from the start; creating it
/// again is not an error.
pub fn init() -> (s: Store)
    ensures
        s@ == empty_rows(),
        store_wf(s@),
{
    let s = Store { blocks: Vec::new(), txs: Vec::new(), msgs: Vec::new(), address_msgs: Vec::new() };
    proof {
        assert(s@.blocks =~= empty_rows().blocks);
        assert(s@.txs =~= empty_rows().txs);
        assert(s@.msgs =~= empty_rows().msgs);
        assert(s@.address_msgs =~= empty_rows().address_msgs);
        assert(s@ =~= empty_rows());
    }
    s
}

impl Txn {
    /// Opens an empty transaction.
    pub fn new() -> (t: Txn)
        ensures
            t@ == empty_rows(),
    {
        let t = Txn {
            blocks: Vec::new(),
            txs: Vec::new(),
            msgs: Vec::new(),
            address_msgs: Vec::new(),
        };
        proof {
            assert(t@.blocks =~= empty_rows().blocks);
            assert(t@.txs =~= empty_rows().txs);
            assert(t@.msgs =~= empty_rows().msgs);
            assert(t@.address_msgs =~= empty_rows().address_msgs);
            assert(t@ =~= empty_rows());
        }
        t
    }
}

impl Store {
    /// Commits a pending transaction atomically: all staged rows become
    /// visible together, or — on a uniqueness conflict — none do and the
    /// store is exactly what it was.
    #[verifier::loop_isolation(false)]
    pub fn commit(&mut self, txn: Txn) -> (r: Result<(), StoreError>)
        requires
            store_wf(old(self)@),
        ensures
            final(self)@ == spec_commit(old(self)@, txn@).0,
            r == spec_commit(old(self)@, txn@).1,
            store_wf(final(self)@),
    {
        let ghost s = old(self)@;
        let ghost t = txn@;
        let mut txn = txn;
        let mut i: usize = 0;
        while i < txn.blocks.len()
            invariant
                0 <= i <= t.blocks.len(),
                txn@ == t,
                forall|k: int| 0 <= k < i ==> !has_height(s.blocks, (#[trigger] t.blocks[k]).height),
                forall|k: int, l: int|
                    0 <= k < l < i ==> (#[trigger] t.blocks[k]).height != (
                    #[trigger] t.blocks[l]).height,
            decreases t.blocks.len() - i,
        {
            let h: u64 = txn.blocks[i].height;
            if crate::tables::block::find_height(&self.blocks, self.blocks.len(), h) {
                proof {
                    assert(s.blocks.take(s.blocks.len() as int) =~= s.blocks);
                    assert(has_height(s.blocks, t.blocks[i as int].height));
                }
                return Err(StoreError::Conflict);
            }
            if crate::tables::block::find_height(&txn.blocks, i, h) {
                proof {
                    let k = choose|k: int|
                        0 <= k < i && (#[trigger] t.blocks.take(i as int)[k]).height == h;
                    assert(t.blocks[k].height == t.blocks[i as int].height);
                }
                return Err(StoreError::Conflict);
            }
            proof {
                assert(s.blocks.take(s.blocks.len() as int) =~= s.blocks);
                assert forall|k: int| 0 <= k < i implies (#[trigger] t.blocks[k]).height != h by {
                    assert(t.blocks.take(i as int)[k] == t.blocks[k]);
                }
            }
            i = i + 1;
        }
        let mut i: usize = 0;
        while i < txn.txs.len()
            invariant
                0 <= i <= t.txs.len(),
                txn@ == t,
                forall|k: int|
                    0 <= k < i ==> !has_tx_key(s.txs, (#[trigger] t.txs[k]).block, t.txs[k].idx),
                forall|k: int, l: int|
                    0 <= k < l < i ==> ((#[trigger] t.txs[k]).block != (#[trigger] t.txs[l]).block
                        || t.txs[k].idx != t.txs[l].idx),
            decreases t.txs.len() - i,
        {
            let b: u64 = txn.txs[i].block;
            let x: u32 = txn.txs[i].idx;
            if crate::tables::tx::find_key(&self.txs, self.txs.len(), b, x) {
                proof {
                    assert(s.txs.take(s.txs.len() as int) =~= s.txs);
                    assert(has_tx_key(s.txs, t.txs[i as int].block, t.txs[i as int].idx));
                }
                return Err(StoreError::Conflict);
            }
            if crate::tables::tx::find_key(&txn.txs, i, b, x) {
                proof {
                    let k = choose|k: int|
                        0 <= k < i && (#[trigger] t.txs.take(i as int)[k]).block == b
                            && t.txs.take(i as int)[k].idx == x;
                    assert(t.txs[k].block == t.txs[i as int].block && t.txs[k].idx == t.txs[
                        i as int
                    ].idx);
                }
                return Err(StoreError::Conflict);
            }
            proof {
                assert(s.txs.take(s.txs.len() as int) =~= s.txs);
                assert forall|k: int| 0 <= k < i implies ((#[trigger] t.txs[k]).block != b
                    || t.txs[k].idx != x) by {
                    assert(t.txs.take(i as int)[k] == t.txs[k]);
                }
            }
            i = i + 1;
        }
        let mut i: usize = 0;
        while i < txn.msgs.len()
            invariant
                0 <= i <= t.msgs.len(),
                txn@ == t,
                forall|k: int|
                    0 <= k < i ==> !has_msg_key(
                        s.msgs,
                        (#[trigger] t.msgs[k]).block,
                        t.msgs[k].tx,
                        t.msgs[k].idx,
                    ),
                forall|k: int, l: int|
                    0 <= k < l < i ==> ((#[trigger] t.msgs[k]).block != (#[trigger] t.msgs[l]).block
                        || t.msgs[k].tx != t.msgs[l].tx || t.msgs[k].idx != t.msgs[l].idx),
            decreases t.msgs.len() - i,
        {
            let b: u64 = txn.msgs[i].block;
            let x: u32 = txn.msgs[i].tx;
            let m: u32 = txn.msgs[i].idx;
            if crate::tables::msg::find_key(&self.msgs, self.msgs.len(), b, x, m) {
                proof {
                    assert(s.msgs.take(s.msgs.len() as int) =~= s.msgs);
                    assert(has_msg_key(
                        s.msgs,
                        t.msgs[i as int].block,
                        t.msgs[i as int].tx,
                        t.msgs[i as int].idx,
                    ));
                }
                return Err(StoreError::Conflict);
            }
            if crate::tables::msg::find_key(&txn.msgs, i, b, x, m) {
                proof {
                    let k = choose|k: int|
                        0 <= k < i && (#[trigger] t.msgs.take(i as int)[k]).block == b
                            && t.msgs.take(i as int)[k].tx == x && t.msgs.take(i as int)[k].idx
                            == m;
                    assert(t.msgs[k].block == t.msgs[i as int].block && t.msgs[k].tx == t.msgs[
                        i as int
                    ].tx && t.msgs[k].idx == t.msgs[i as int].idx);
                }
                return Err(StoreError::Conflict);
            }
            proof {
                assert(s.msgs.take(s.msgs.len() as int) =~= s.msgs);
                assert forall|k: int| 0 <= k < i implies ((#[trigger] t.msgs[k]).block != b
                    || t.msgs[k].tx != x || t.msgs[k].idx != m) by {
                    assert(t.msgs.take(i as int)[k] == t.msgs[k]);
                }
            }
            i = i + 1;
        }
        proof {
            assert(!has_conflict(s, t));
        }
        self.blocks.append(&mut txn.blocks);
        self.txs.append(&mut txn.txs);
        self.msgs.append(&mut txn.msgs);
        self.address_msgs.append(&mut txn.address_msgs);
        proof {
            assert(self@.blocks =~= s.blocks + t.blocks);
            assert(self@.txs =~= s.txs + t.txs);
            assert(self@.msgs =~= s.msgs + t.msgs);
            assert(self@.address_msgs =~= s.address_msgs + t.address_msgs);
            assert(self@ =~= rows_append(s, t));
            let nb = s.blocks + t.blocks;
            assert forall|i: int, j: int| 0 <= i < j < nb.len() implies (#[trigger] nb[i]).height
                != (#[trigger] nb[j]).height by {
                if j >= s.blocks.len() {
                    assert(nb[j] == t.blocks[j - s.blocks.len()]);
                    if i < s.blocks.len() {
                        assert(nb[i] == s.blocks[i]);
                        assert(!has_height(s.blocks, t.blocks[j - s.blocks.len()].height));
                    } else {
                        assert(nb[i] == t.blocks[i - s.blocks.len()]);
                    }
                }
            }
            let nt = s.txs + t.txs;
            assert forall|i: int, j: int| 0 <= i < j < nt.len() implies ((#[trigger] nt[i]).block
                != (#[trigger] nt[j]).block || nt[i].idx != nt[j].idx) by {
                if j >= s.txs.len() {
                    assert(nt[j] == t.txs[j - s.txs.len()]);
                    if i < s.txs.len() {
                        assert(nt[i] == s.txs[i]);
                        assert(!has_tx_key(
                            s.txs,
                            t.txs[j - s.txs.len()].block,
                            t.txs[j - s.txs.len()].idx,
                        ));
                    } else {
                        assert(nt[i] == t.txs[i - s.txs.len()]);
                    }
                }
            }
            let nm = s.msgs + t.msgs;
            assert forall|i: int, j: int| 0 <= i < j < nm.len() implies ((#[trigger] nm[i]).block
                != (#[trigger] nm[j]).block || nm[i].tx != nm[j].tx || nm[i].idx != nm[j].idx) by {
                if j >= s.msgs.len() {
                    assert(nm[j] == t.msgs[j - s.msgs.len()]);
                    if i < s.msgs.len() {
                        assert(nm[i] == s.msgs[i]);
                        assert(!has_msg_key(
                            s.msgs,
                            t.msgs[j - s.msgs.len()].block,
                            t.msgs[j - s.msgs.len()].tx,
                            t.msgs[j - s.msgs.len()].idx,
                        ));
                    } else {
                        assert(nm[i] == t.msgs[i - s.msgs.len()]);
                    }
                }
            }
        }
        Ok(())
    }
}

/// Law: commits are all-or-nothing. A conflicting commit leaves the store
/// exactly as it was; a clean one appends every staged row.
pub proof fn lemma_commit_atomic(s: RowsV, t: RowsV)
    ensures
        spec_commit(s, t).1 is Err ==> spec_commit(s, t).0 == s,
        spec_commit(s, t).1 is Ok ==> spec_commit(s, t).0 == rows_append(s, t),
{
}

} // verus!
