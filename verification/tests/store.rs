use quadrant::api::{query_block_by_height, query_block_latest, query_tx_by_hash};
use quadrant::indexer::insert_block;
use quadrant::model::{Block, Msg, Transfer, Tx};
use quadrant::tables::block::{by_hash, by_height, top, BlockRow};
use quadrant::tables::schema::{init, Store, StoreError, Txn};
use quadrant::tables::tx::TxRow;
use quadrant::tables::{block, msg, tx};

fn send_msg(index: u32, a: &str, b: &str, amount: u32) -> Msg {
    Msg {
        index,
        tag: "/cosmos.bank.v1beta1.MsgSend".to_string(),
        data: vec![1, 2, 3],
        addresses: vec![a.to_string(), b.to_string()],
        transfers: vec![Transfer {
            index,
            sender: a.to_string(),
            receiver: b.to_string(),
            amount,
        }],
    }
}

fn unknown_msg(index: u32) -> Msg {
    Msg {
        index,
        tag: "/cosmos.gov.v1beta1.MsgVote".to_string(),
        data: vec![9, 9],
        addresses: vec![],
        transfers: vec![],
    }
}

fn block_at(height: u64, msgs: Vec<Msg>) -> Block {
    Block {
        hash: format!("HASH{}", height),
        height,
        time: "2022-01-01T00:00:00Z".to_string(),
        proposer: "cosmosvaloperproposer".to_string(),
        txs: vec![Tx {
            hash: format!("TXHASH{}", height),
            index: 0,
            msgs,
        }],
    }
}

fn empty_block_at(height: u64) -> Block {
    Block {
        hash: format!("HASH{}", height),
        height,
        time: "2022-01-01T00:00:00Z".to_string(),
        proposer: "cosmosvaloperproposer".to_string(),
        txs: vec![],
    }
}

#[test]
fn empty_store_has_no_top() {
    let store: Store = init();
    assert!(top(&store).is_none());
    assert!(by_height(&store, 1).is_none());
    assert!(by_hash(&store, &"HASH1".to_string()).is_none());
    assert!(query_block_latest(&store).is_none());
}

#[test]
fn insert_block_then_read_back() {
    let mut store = init();
    let b = block_at(105, vec![send_msg(0, "cosmos1aaa", "cosmos1bbb", 10)]);
    insert_block(&mut store, &b).unwrap();

    let t = top(&store).unwrap();
    assert_eq!(t.height, 105);
    assert_eq!(t.hash, "HASH105");
    assert_eq!(by_height(&store, 105).unwrap().hash, "HASH105");
    assert_eq!(by_hash(&store, &"HASH105".to_string()).unwrap().height, 105);

    let txs = tx::by_block(&store, 105);
    assert_eq!(txs.len(), 1);
    assert_eq!(txs[0].idx, 0);
    assert_eq!(txs[0].hash, "TXHASH105");
    assert_eq!(tx::by_hash(&store, &"TXHASH105".to_string()).unwrap().block, 105);

    let msgs = msg::by_block(&store, 105);
    assert_eq!(msgs.len(), 1);
    assert_eq!(msgs[0].tag, "/cosmos.bank.v1beta1.MsgSend");
    assert_eq!(msgs[0].data, vec![1, 2, 3]);

    assert_eq!(store.address_msgs.len(), 2);
    assert_eq!(store.address_msgs[0].address, "cosmos1aaa");
    assert_eq!(store.address_msgs[1].address, "cosmos1bbb");
}

#[test]
fn duplicate_height_conflicts_and_keeps_first() {
    let mut store = init();
    let first = block_at(105, vec![]);
    let mut second = block_at(105, vec![]);
    second.hash = "OTHERHASH".to_string();

    insert_block(&mut store, &first).unwrap();
    assert_eq!(insert_block(&mut store, &second), Err(StoreError::Conflict));

    // The first row is not silently overwritten.
    assert_eq!(by_height(&store, 105).unwrap().hash, "HASH105");
    assert_eq!(store.blocks.len(), 1);
}

#[test]
fn dropped_transaction_leaves_store_untouched() {
    // Persistence interrupted mid-way: block and tx rows staged, msg rows
    // never staged, the transaction never committed.
    let mut txn = Txn::new();
    let b = block_at(50, vec![send_msg(0, "cosmos1aaa", "cosmos1bbb", 10)]);
    let _ = block::insert(&mut txn, &BlockRow::new(&b));
    let _ = tx::insert(&mut txn, &TxRow::new(&b, &b.txs[0]));
    drop(txn);

    let store = init();
    assert!(top(&store).is_none());
    assert!(by_height(&store, 50).is_none());
    assert!(tx::by_block(&store, 50).is_empty());
}

#[test]
fn conflicting_commit_rolls_back_whole_transaction() {
    let mut store = init();
    insert_block(&mut store, &empty_block_at(50)).unwrap();

    // One transaction staging a fresh block and a duplicate of height 50:
    // nothing of it may become visible.
    let mut txn = Txn::new();
    let fresh = empty_block_at(60);
    let dup = empty_block_at(50);
    let _ = block::insert(&mut txn, &BlockRow::new(&fresh));
    let _ = block::insert(&mut txn, &BlockRow::new(&dup));
    assert_eq!(store.commit(txn), Err(StoreError::Conflict));

    assert!(by_height(&store, 60).is_none());
    assert_eq!(top(&store).unwrap().height, 50);
    assert_eq!(store.blocks.len(), 1);
}

#[test]
fn queries_join_block_with_tx_hashes() {
    let mut store = init();
    let b = block_at(105, vec![send_msg(0, "cosmos1aaa", "cosmos1bbb", 10), unknown_msg(1)]);
    insert_block(&mut store, &b).unwrap();

    let latest = query_block_latest(&store).unwrap();
    assert_eq!(latest.height, 105);
    assert_eq!(latest.hash, "HASH105");
    assert_eq!(latest.time, "2022-01-01T00:00:00Z");
    assert_eq!(latest.proposer, "cosmosvaloperproposer");
    assert_eq!(latest.tx_count, 1);
    assert_eq!(latest.tx_hashes, vec!["TXHASH105".to_string()]);

    let byh = query_block_by_height(&store, 105).unwrap();
    assert_eq!(byh.hash, "HASH105");
    assert!(query_block_by_height(&store, 104).is_none());

    let txv = query_tx_by_hash(&store, &"TXHASH105".to_string()).unwrap();
    assert_eq!(txv.block, 105);
    assert_eq!(txv.index, 0);
    assert!(query_tx_by_hash(&store, &"MISSING".to_string()).is_none());
}
