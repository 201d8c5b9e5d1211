use cosmrs::proto::cosmos::tx::v1beta1::{AuthInfo, Fee, Tx, TxBody};
use cosmrs::proto::prost::Message;
use quadrant::args::Args;
use quadrant::fetch::RawBlock;
use quadrant::indexer::{
    index_block, index_history_lower_bound, index_history_upper_bound, insert_block, next_range,
    IndexError,
};
use quadrant::model::{Block, Transfer};
use quadrant::tables::block::top;
use quadrant::tables::schema::{init, StoreError};
use quadrant::tables::{msg, tx};

fn args(from: u32, to: u32) -> Args {
    Args {
        init_schema: false,
        index: true,
        log_level: "INFO".to_string(),
        datadir: "./data".to_string(),
        rpc: "http://localhost:26657".to_string(),
        from_block: from,
        to_block: to,
    }
}

fn raw_block(height: u64, txs: Vec<Vec<u8>>) -> RawBlock {
    RawBlock {
        hash: format!("BLOCKHASH{}", height),
        height,
        time: "2022-01-01T00:00:00Z".to_string(),
        proposer: "cosmosvaloperproposer".to_string(),
        txs,
    }
}

fn empty_block_at(height: u64) -> Block {
    Block {
        hash: format!("HASH{}", height),
        height,
        time: "2022-01-01T00:00:00Z".to_string(),
        proposer: "cosmosvaloperproposer".to_string(),
        txs: vec![],
    }
}

fn send_and_unknown_tx_bytes() -> Vec<u8> {
    let send = cosmrs::proto::cosmos::bank::v1beta1::MsgSend {
        from_address: "cosmos1aaa".to_string(),
        to_address: "cosmos1bbb".to_string(),
        amount: vec![cosmrs::proto::cosmos::base::v1beta1::Coin {
            denom: "uatom".to_string(),
            amount: "10".to_string(),
        }],
    };
    let msgs = vec![
        cosmrs::Any {
            type_url: "/cosmos.bank.v1beta1.MsgSend".to_string(),
            value: send.encode_to_vec(),
        },
        cosmrs::Any {
            type_url: "/cosmos.gov.v1beta1.MsgVote".to_string(),
            value: vec![1, 2, 3],
        },
    ];
    let tx = Tx {
        body: Some(TxBody {
            messages: msgs,
            memo: String::new(),
            timeout_height: 0,
            extension_options: vec![],
            non_critical_extension_options: vec![],
        }),
        auth_info: Some(AuthInfo {
            signer_infos: vec![],
            fee: Some(Fee {
                amount: vec![],
                gas_limit: 0,
                payer: String::new(),
                granter: String::new(),
            }),
            tip: None,
        }),
        signatures: vec![],
    };
    tx.encode_to_vec()
}

#[test]
fn lower_bound_formula() {
    let a = args(100, 105);
    let empty = init();
    assert_eq!(index_history_lower_bound(&empty, &a), 100);

    let mut store = init();
    insert_block(&mut store, &empty_block_at(105)).unwrap();
    // max(105 + 1, 100)
    assert_eq!(index_history_lower_bound(&store, &a), 106);

    let mut low = init();
    insert_block(&mut low, &empty_block_at(50)).unwrap();
    // max(50 + 1, 100)
    assert_eq!(index_history_lower_bound(&low, &a), 100);
}

#[test]
fn upper_bound_formula() {
    let a = args(100, u32::MAX);
    // min(105, ceiling)
    assert_eq!(index_history_upper_bound(Some(105), &a), 105);
    // failed tip query falls back to the ceiling
    assert_eq!(index_history_upper_bound(None, &a), u32::MAX as u64);
    let capped = args(100, 105);
    assert_eq!(index_history_upper_bound(Some(200), &capped), 105);
}

#[test]
fn catch_up_from_empty_store() {
    // Empty store, floor 100, ceiling 105, live tip 105: the indexer
    // processes heights 100 through 105 and then reports an empty range.
    let a = args(100, 105);
    let mut store = init();
    let live = Some(105);

    let mut fetched: Vec<u64> = Vec::new();
    while let Some((lb, ub)) = next_range(&store, &a, live) {
        for h in lb..=ub {
            fetched.push(h);
            index_block(&mut store, &raw_block(h, vec![])).unwrap();
        }
    }

    assert_eq!(fetched, vec![100, 101, 102, 103, 104, 105]);
    assert_eq!(top(&store).unwrap().height, 105);
    assert_eq!(store.blocks.len(), 6);
}

#[test]
fn caught_up_store_fetches_nothing() {
    // Store already at height 105, floor 100, live tip 105: the next
    // range is empty (106 > 105), so no fetch, decode or persist happens.
    let a = args(100, 105);
    let mut store = init();
    insert_block(&mut store, &empty_block_at(105)).unwrap();

    assert_eq!(next_range(&store, &a, Some(105)), None);
    assert_eq!(store.blocks.len(), 1);
}

#[test]
fn send_and_unknown_block_end_to_end() {
    // A block at height 50 with one transaction carrying a known send
    // (A -> B, 10) and one unknown message: one transfer decodes out of
    // the send, the unknown message keeps empty addresses, and exactly
    // two association rows are persisted, for A and for B.
    let mut store = init();
    let raw = raw_block(50, vec![send_and_unknown_tx_bytes()]);

    let decoded = quadrant::fetch::block_to_model(&raw).unwrap();
    assert_eq!(decoded.txs[0].msgs.len(), 2);
    assert_eq!(
        decoded.txs[0].msgs[0].transfers,
        vec![Transfer {
            index: 0,
            sender: "cosmos1aaa".to_string(),
            receiver: "cosmos1bbb".to_string(),
            amount: 10,
        }]
    );
    assert!(decoded.txs[0].msgs[1].addresses.is_empty());
    assert!(decoded.txs[0].msgs[1].transfers.is_empty());

    index_block(&mut store, &raw).unwrap();

    assert_eq!(tx::by_block(&store, 50).len(), 1);
    let msgs = msg::by_block(&store, 50);
    assert_eq!(msgs.len(), 2);
    assert_eq!(msgs[1].tag, "/cosmos.gov.v1beta1.MsgVote");

    assert_eq!(store.address_msgs.len(), 2);
    assert_eq!(store.address_msgs[0].address, "cosmos1aaa");
    assert_eq!(store.address_msgs[1].address, "cosmos1bbb");
    assert!(store
        .address_msgs
        .iter()
        .all(|r| r.block == 50 && r.tx == 0 && r.msg == 0));
}

#[test]
fn index_block_error_kinds() {
    let mut store = init();
    assert_eq!(
        index_block(&mut store, &raw_block(50, vec![vec![0xFF]])),
        Err(IndexError::Decode(
            quadrant::fetch::DecodeError::MalformedTx
        ))
    );
    // Nothing was persisted by the failed attempt.
    assert!(top(&store).is_none());

    index_block(&mut store, &raw_block(50, vec![])).unwrap();
    assert_eq!(
        index_block(&mut store, &raw_block(50, vec![])),
        Err(IndexError::Store(StoreError::Conflict))
    );
}

#[test]
fn default_configuration() {
    let a = Args::default();
    assert_eq!(a.init_schema, false);
    assert_eq!(a.index, true);
    assert_eq!(a.log_level, "INFO");
    assert_eq!(a.datadir, "./data");
    assert_eq!(a.from_block, 5200791);
    assert_eq!(a.to_block, u32::MAX);
}
