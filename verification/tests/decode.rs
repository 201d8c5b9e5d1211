use cosmrs::proto::cosmos::tx::v1beta1::{AuthInfo, Fee, Tx, TxBody};
use cosmrs::proto::prost::Message;
use quadrant::fetch::{block_to_model, msg_addresses, msg_to_model, msg_transfers, parse_u32, tx_hash, tx_to_model, DecodeError, RawBlock};
use quadrant::model::Transfer;

const SEND_TAG: &str = "/cosmos.bank.v1beta1.MsgSend";

fn coin(denom: &str, amount: &str) -> cosmrs::proto::cosmos::base::v1beta1::Coin {
    cosmrs::proto::cosmos::base::v1beta1::Coin {
        denom: denom.to_string(),
        amount: amount.to_string(),
    }
}

fn send_any(from: &str, to: &str, amounts: Vec<&str>) -> cosmrs::Any {
    let m = cosmrs::proto::cosmos::bank::v1beta1::MsgSend {
        from_address: from.to_string(),
        to_address: to.to_string(),
        amount: amounts.into_iter().map(|a| coin("uatom", a)).collect(),
    };
    cosmrs::Any {
        type_url: SEND_TAG.to_string(),
        value: m.encode_to_vec(),
    }
}

fn unknown_any() -> cosmrs::Any {
    cosmrs::Any {
        type_url: "/cosmos.gov.v1beta1.MsgVote".to_string(),
        value: vec![1, 2, 3],
    }
}

fn tx_bytes(msgs: Vec<cosmrs::Any>) -> Vec<u8> {
    let tx = Tx {
        body: Some(TxBody {
            messages: msgs,
            memo: String::new(),
            timeout_height: 0,
            extension_options: vec![],
            non_critical_extension_options: vec![],
        }),
        auth_info: Some(AuthInfo {
            signer_infos: vec![],
            fee: Some(Fee {
                amount: vec![],
                gas_limit: 0,
                payer: String::new(),
                granter: String::new(),
            }),
            tip: None,
        }),
        signatures: vec![],
    };
    tx.encode_to_vec()
}

fn raw_block(height: u64, txs: Vec<Vec<u8>>) -> RawBlock {
    RawBlock {
        hash: format!("BLOCKHASH{}", height),
        height,
        time: "2022-01-01T00:00:00Z".to_string(),
        proposer: "cosmosvaloperproposer".to_string(),
        txs,
    }
}

#[test]
fn tx_hash_known_vector() {
    // SHA-256("abc"), upper-case hex.
    let h = tx_hash(&b"abc".to_vec());
    assert_eq!(
        h,
        "BA7816BF8F01CFEA414140DE5DAE2223B00361A396177A9CB410FF61F20015AD"
    );
}

#[test]
fn tx_hash_empty_vector() {
    // SHA-256 of the empty byte string, upper-case hex.
    let h = tx_hash(&Vec::new());
    assert_eq!(
        h,
        "E3B0C44298FC1C149AFBF4C8996FB92427AE41E4649B934CA495991B7852B855"
    );
}

#[test]
fn parse_u32_values() {
    assert_eq!(parse_u32(&"10".to_string()), Some(10));
    assert_eq!(parse_u32(&"0".to_string()), Some(0));
    assert_eq!(parse_u32(&"007".to_string()), Some(7));
    assert_eq!(parse_u32(&"4294967295".to_string()), Some(u32::MAX));
    assert_eq!(parse_u32(&"4294967296".to_string()), None);
    assert_eq!(parse_u32(&"".to_string()), None);
    assert_eq!(parse_u32(&"12a".to_string()), None);
    assert_eq!(parse_u32(&"-5".to_string()), None);
}

#[test]
fn addresses_of_send() {
    let a = send_any("cosmos1aaa", "cosmos1bbb", vec!["10"]);
    let r = msg_addresses(&a.type_url, &a.value).unwrap();
    assert_eq!(r, vec!["cosmos1aaa".to_string(), "cosmos1bbb".to_string()]);
}

#[test]
fn addresses_of_multi_send() {
    let m = cosmrs::proto::cosmos::bank::v1beta1::MsgMultiSend {
        inputs: vec![cosmrs::proto::cosmos::bank::v1beta1::Input {
            address: "cosmos1in".to_string(),
            coins: vec![coin("uatom", "7")],
        }],
        outputs: vec![
            cosmrs::proto::cosmos::bank::v1beta1::Output {
                address: "cosmos1out1".to_string(),
                coins: vec![coin("uatom", "3")],
            },
            cosmrs::proto::cosmos::bank::v1beta1::Output {
                address: "cosmos1out2".to_string(),
                coins: vec![coin("uatom", "4")],
            },
        ],
    };
    let tag = "/cosmos.bank.v1beta1.MsgMultiSend".to_string();
    let r = msg_addresses(&tag, &m.encode_to_vec()).unwrap();
    assert_eq!(
        r,
        vec![
            "cosmos1in".to_string(),
            "cosmos1out1".to_string(),
            "cosmos1out2".to_string()
        ]
    );
}

#[test]
fn addresses_of_delegate() {
    let m = cosmrs::proto::cosmos::staking::v1beta1::MsgDelegate {
        delegator_address: "cosmos1del".to_string(),
        validator_address: "cosmosvaloper1val".to_string(),
        amount: Some(coin("uatom", "1")),
    };
    let tag = "/cosmos.staking.v1beta1.MsgDelegate".to_string();
    let r = msg_addresses(&tag, &m.encode_to_vec()).unwrap();
    assert_eq!(r, vec!["cosmos1del".to_string(), "cosmosvaloper1val".to_string()]);
}

#[test]
fn addresses_of_undelegate() {
    let m = cosmrs::proto::cosmos::staking::v1beta1::MsgUndelegate {
        delegator_address: "cosmos1del".to_string(),
        validator_address: "cosmosvaloper1val".to_string(),
        amount: Some(coin("uatom", "1")),
    };
    let tag = "/cosmos.staking.v1beta1.MsgUndelegate".to_string();
    let r = msg_addresses(&tag, &m.encode_to_vec()).unwrap();
    assert_eq!(r, vec!["cosmos1del".to_string(), "cosmosvaloper1val".to_string()]);
}

#[test]
fn addresses_of_begin_redelegate() {
    let m = cosmrs::proto::cosmos::staking::v1beta1::MsgBeginRedelegate {
        delegator_address: "cosmos1del".to_string(),
        validator_src_address: "cosmosvaloper1src".to_string(),
        validator_dst_address: "cosmosvaloper1dst".to_string(),
        amount: Some(coin("uatom", "1")),
    };
    let tag = "/cosmos.staking.v1beta1.MsgBeginRedelegate".to_string();
    let r = msg_addresses(&tag, &m.encode_to_vec()).unwrap();
    assert_eq!(
        r,
        vec![
            "cosmos1del".to_string(),
            "cosmosvaloper1src".to_string(),
            "cosmosvaloper1dst".to_string()
        ]
    );
}

#[test]
fn addresses_of_withdraw_reward() {
    let m = cosmrs::proto::cosmos::distribution::v1beta1::MsgWithdrawDelegatorReward {
        delegator_address: "cosmos1del".to_string(),
        validator_address: "cosmosvaloper1val".to_string(),
    };
    let tag = "/cosmos.distribution.v1beta1.MsgWithdrawDelegatorReward".to_string();
    let r = msg_addresses(&tag, &m.encode_to_vec()).unwrap();
    assert_eq!(r, vec!["cosmos1del".to_string(), "cosmosvaloper1val".to_string()]);
}

#[test]
fn addresses_of_withdraw_commission() {
    let m = cosmrs::proto::cosmos::distribution::v1beta1::MsgWithdrawValidatorCommission {
        validator_address: "cosmosvaloper1val".to_string(),
    };
    let tag = "/cosmos.distribution.v1beta1.MsgWithdrawValidatorCommission".to_string();
    let r = msg_addresses(&tag, &m.encode_to_vec()).unwrap();
    assert_eq!(r, vec!["cosmosvaloper1val".to_string()]);
}

#[test]
fn addresses_of_set_withdraw_address() {
    let m = cosmrs::proto::cosmos::distribution::v1beta1::MsgSetWithdrawAddress {
        delegator_address: "cosmos1del".to_string(),
        withdraw_address: "cosmos1wdr".to_string(),
    };
    let tag = "/cosmos.distribution.v1beta1.MsgSetWithdrawAddress".to_string();
    let r = msg_addresses(&tag, &m.encode_to_vec()).unwrap();
    assert_eq!(r, vec!["cosmos1del".to_string(), "cosmos1wdr".to_string()]);
}

#[test]
fn addresses_of_fund_community_pool() {
    let m = cosmrs::proto::cosmos::distribution::v1beta1::MsgFundCommunityPool {
        amount: vec![coin("uatom", "5")],
        depositor: "cosmos1dep".to_string(),
    };
    let tag = "/cosmos.distribution.v1beta1.MsgFundCommunityPool".to_string();
    let r = msg_addresses(&tag, &m.encode_to_vec()).unwrap();
    assert_eq!(r, vec!["cosmos1dep".to_string()]);
}

#[test]
fn addresses_of_unknown_tag_empty() {
    let a = unknown_any();
    let r = msg_addresses(&a.type_url, &a.value).unwrap();
    assert!(r.is_empty());
}

#[test]
fn malformed_known_payload_is_error() {
    let tag = SEND_TAG.to_string();
    let garbage: Vec<u8> = vec![0xFF, 0xFF, 0xFF];
    assert_eq!(
        msg_addresses(&tag, &garbage),
        Err(DecodeError::MalformedMsg)
    );
    assert_eq!(
        msg_to_model(0, &tag, &garbage),
        Err(DecodeError::MalformedMsg)
    );
}

#[test]
fn transfers_of_send() {
    let a = send_any("cosmos1aaa", "cosmos1bbb", vec!["10", "99"]);
    let r = msg_transfers(3, &a.type_url, &a.value).unwrap();
    assert_eq!(
        r,
        vec![Transfer {
            index: 3,
            sender: "cosmos1aaa".to_string(),
            receiver: "cosmos1bbb".to_string(),
            amount: 10,
        }]
    );
}

#[test]
fn transfers_absent_without_plain_amount() {
    let no_coins = send_any("cosmos1aaa", "cosmos1bbb", vec![]);
    assert!(msg_transfers(0, &no_coins.type_url, &no_coins.value)
        .unwrap()
        .is_empty());
    let huge = send_any("cosmos1aaa", "cosmos1bbb", vec!["99999999999999999999"]);
    assert!(msg_transfers(0, &huge.type_url, &huge.value)
        .unwrap()
        .is_empty());
    let unknown = unknown_any();
    assert!(msg_transfers(0, &unknown.type_url, &unknown.value)
        .unwrap()
        .is_empty());
}

#[test]
fn malformed_tx_bytes_are_error() {
    assert_eq!(tx_to_model(0, &vec![0xFF]), Err(DecodeError::MalformedTx));
    // An empty byte string decodes to a transaction with no body at all.
    assert_eq!(tx_to_model(0, &Vec::new()), Err(DecodeError::MalformedTx));
}

#[test]
fn decode_block_structure() {
    let bytes = tx_bytes(vec![send_any("cosmos1aaa", "cosmos1bbb", vec!["10"]), unknown_any()]);
    let raw = raw_block(50, vec![bytes.clone()]);
    let block = block_to_model(&raw).unwrap();
    assert_eq!(block.height, 50);
    assert_eq!(block.hash, "BLOCKHASH50");
    assert_eq!(block.time, "2022-01-01T00:00:00Z");
    assert_eq!(block.proposer, "cosmosvaloperproposer");
    assert_eq!(block.txs.len(), 1);
    let tx = &block.txs[0];
    assert_eq!(tx.index, 0);
    assert_eq!(tx.hash, tx_hash(&bytes));
    assert_eq!(tx.msgs.len(), 2);
    assert_eq!(tx.msgs[0].index, 0);
    assert_eq!(tx.msgs[0].tag, SEND_TAG);
    assert_eq!(tx.msgs[1].index, 1);
}

#[test]
fn decode_is_deterministic() {
    let bytes = tx_bytes(vec![send_any("cosmos1aaa", "cosmos1bbb", vec!["10"]), unknown_any()]);
    let raw = raw_block(50, vec![bytes]);
    let first = block_to_model(&raw).unwrap();
    let second = block_to_model(&raw).unwrap();
    assert_eq!(first, second);
}

#[test]
fn unknown_tag_does_not_abort_siblings() {
    let bytes = tx_bytes(vec![unknown_any(), send_any("cosmos1aaa", "cosmos1bbb", vec!["10"])]);
    let tx = tx_to_model(0, &bytes).unwrap();
    assert_eq!(tx.msgs.len(), 2);
    assert!(tx.msgs[0].addresses.is_empty());
    assert!(tx.msgs[0].transfers.is_empty());
    assert_eq!(
        tx.msgs[1].addresses,
        vec!["cosmos1aaa".to_string(), "cosmos1bbb".to_string()]
    );
}

#[test]
fn malformed_tx_aborts_block() {
    let raw = raw_block(50, vec![vec![0xFF]]);
    assert_eq!(block_to_model(&raw), Err(DecodeError::MalformedTx));
}
