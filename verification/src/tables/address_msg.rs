//! The address_msg table: one association row per (address, message)
//! pair, supporting "all messages touching address X". A pure
//! association — it has no uniqueness key of its own.
use vstd::prelude::*;

use crate::model::{Block, BlockV, Msg, MsgV, Tx, TxV};
use crate::tables::schema::{StoreError, Txn};

verus! {

/// One persisted association row.
#[derive(Debug, PartialEq, Eq)]
pub struct AddressMsgRow {
    pub address: String,
    pub block: u64,
    pub tx: u32,
    pub msg: u32,
}

/// Mathematical image of an `AddressMsgRow`.
pub struct AddressMsgRowV {
    pub address: Seq<char>,
    pub block: u64,
    pub tx: u32,
    pub msg: u32,
}

impl View for AddressMsgRow {
    type V = AddressMsgRowV;

    open spec fn view(&self) -> AddressMsgRowV {
        AddressMsgRowV { address: self.address@, block: self.block, tx: self.tx, msg: self.msg }
    }
}

/// The views of a sequence of association rows.
pub open spec fn views_of_address_msg_rows(v: Seq<AddressMsgRow>) -> Seq<AddressMsgRowV> {
    v.map_values(|r: AddressMsgRow| r@)
}

/// The row associating one participant address with one message.
pub open spec fn spec_address_msg_row(b: BlockV, t: TxV, m: MsgV, address: Seq<char>) -> AddressMsgRowV {
    AddressMsgRowV { address, block: b.height, tx: t.index, msg: m.index }
}

impl AddressMsgRow {
    /// The row associating a participant address with a message.
    pub fn new(block: &Block, tx: &Tx, msg: &Msg, address: &String) -> (r: AddressMsgRow)
        ensures
            r@ == spec_address_msg_row(block@, tx@, msg@, address@),
    {
        AddressMsgRow {
            address: address.clone(),
            block: block.height,
            tx: tx.index,
            msg: msg.index,
        }
    }
}

/// Copies an association row.
pub(crate) fn clone_row(row: &AddressMsgRow) -> (r: AddressMsgRow)
    ensures
        r@ == row@,
{
    AddressMsgRow {
        address: row.address.clone(),
        block: row.block,
        tx: row.tx,
        msg: row.msg,
    }
}

/// Adds an association row to the pending transaction.
pub fn insert(txn: &mut Txn, row: &AddressMsgRow) -> (r: Result<(), StoreError>)
    ensures
        r is Ok,
        final(txn)@.address_msgs == old(txn)@.address_msgs.push(row@),
        final(txn)@.blocks == old(txn)@.blocks,
        final(txn)@.txs == old(txn)@.txs,
        final(txn)@.msgs == old(txn)@.msgs,
{
    txn.address_msgs.push(clone_row(row));
    proof {
        assert(views_of_address_msg_rows(txn.address_msgs@) =~= views_of_address_msg_rows(
            old(txn).address_msgs@,
        ).push(row@));
    }
    Ok(())
}

} // verus!
