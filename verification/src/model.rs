//! Canonical in-memory model of decoded chain data: a block owns its
//! transactions in order, a transaction its messages, and a message the
//! participant addresses and value transfers extracted from it.
use vstd::prelude::*;

verus! {

/// A value movement extracted from a message: position of the owning
/// message, the two parties, and the integer amount moved.
#[derive(Debug, Clone, PartialEq, Eq)]
pub struct Transfer {
    pub index: u32,
    pub sender: String,
    pub receiver: String,
    pub amount: u32,
}

/// One typed instruction within a transaction. `tag` identifies the wire
/// message kind, `data` keeps the raw encoded payload, `addresses` the
/// participants extracted for known kinds (empty for unknown kinds).
#[derive(Debug, Clone, PartialEq, Eq)]
pub struct Msg {
    pub index: u32,
    pub tag: String,
    pub data: Vec<u8>,
    pub addresses: Vec<String>,
    pub transfers: Vec<Transfer>,
}

/// One transaction: its position within the block, the upper-case hex
/// digest of its raw bytes, and its messages in wire order.
#[derive(Debug, Clone, PartialEq, Eq)]
pub struct Tx {
    pub hash: String,
    pub index: u32,
    pub msgs: Vec<Msg>,
}

/// One block: header data and the ordered transactions it carries.
/// `time` is the block timestamp as RFC 3339 text.
#[derive(Debug, Clone, PartialEq, Eq)]
pub struct Block {
    pub hash: String,
    pub height: u64,
    pub time: String,
    pub proposer: String,
    pub txs: Vec<Tx>,
}

/// Mathematical image of a `Transfer`.
pub struct TransferV {
    pub index: u32,
    pub sender: Seq<char>,
    pub receiver: Seq<char>,
    pub amount: u32,
}

/// Mathematical image of a `Msg`.
pub struct MsgV {
    pub index: u32,
    pub tag: Seq<char>,
    pub data: Seq<u8>,
    pub addresses: Seq<Seq<char>>,
    pub transfers: Seq<TransferV>,
}

/// Mathematical image of a `Tx`.
pub struct TxV {
    pub hash: Seq<char>,
    pub index: u32,
    pub msgs: Seq<MsgV>,
}

/// Mathematical image of a `Block`.
pub struct BlockV {
    pub hash: Seq<char>,
    pub height: u64,
    pub time: Seq<char>,
    pub proposer: Seq<char>,
    pub txs: Seq<TxV>,
}

/// The views of a sequence of strings.
pub open spec fn views_of_strings(v: Seq<String>) -> Seq<Seq<char>> {
    v.map_values(|x: String| x@)
}

/// The views of a sequence of transfers.
pub open spec fn views_of_transfers(v: Seq<Transfer>) -> Seq<TransferV> {
    v.map_values(|t: Transfer| t@)
}

/// The views of a sequence of messages.
pub open spec fn views_of_msgs(v: Seq<Msg>) -> Seq<MsgV> {
    v.map_values(|m: Msg| m@)
}

/// The views of a sequence of transactions.
pub open spec fn views_of_txs(v: Seq<Tx>) -> Seq<TxV> {
    v.map_values(|t: Tx| t@)
}

/// The views of a sequence of byte vectors.
pub open spec fn views_of_bytes(v: Seq<Vec<u8>>) -> Seq<Seq<u8>> {
    v.map_values(|b: Vec<u8>| b@)
}

impl View for Transfer {
    type V = TransferV;

    open spec fn view(&self) -> TransferV {
        TransferV {
            index: self.index,
            sender: self.sender@,
            receiver: self.receiver@,
            amount: self.amount,
        }
    }
}

impl View for Msg {
    type V = MsgV;

    open spec fn view(&self) -> MsgV {
        MsgV {
            index: self.index,
            tag: self.tag@,
            data: self.data@,
            addresses: views_of_strings(self.addresses@),
            transfers: views_of_transfers(self.transfers@),
        }
    }
}

impl View for Tx {
    type V = TxV;

    open spec fn view(&self) -> TxV {
        TxV {
            hash: self.hash@,
            index: self.index,
            msgs: views_of_msgs(self.msgs@),
        }
    }
}

impl View for Block {
    type V = BlockV;

    open spec fn view(&self) -> BlockV {
        BlockV {
            hash: self.hash@,
            height: self.height,
            time: self.time@,
            proposer: self.proposer@,
            txs: views_of_txs(self.txs@),
        }
    }
}

/// A transaction is well formed at position `i` when its own index is `i`
/// and its messages carry their positions as indices. Decoding always
/// yields this shape, and it makes `(block, tx)` and `(block, tx, msg)`
/// keys unique within one block.
pub open spec fn tx_wf(t: TxV, i: int) -> bool {
    &&& t.index as int == i
    &&& forall|j: int| 0 <= j < t.msgs.len() ==> (#[trigger] t.msgs[j]).index as int == j
}

/// A block is well formed when every transaction is well formed at its
/// position.
pub open spec fn block_wf(b: BlockV) -> bool {
    forall|i: int| 0 <= i < b.txs.len() ==> tx_wf(#[trigger] b.txs[i], i)
}

} // verus!
