//! The trusted boundary to the wire-format crates. Every function here is
//! `external_body`: its body only calls the outside crate and converts the
//! result into plain values, and its contract names what the call returns.
//! Results that take pages to state (a digest, a protobuf parse) are given
//! uninterpreted names; everything proved about decoding rests on them.
use vstd::prelude::*;

use cosmrs::proto::prost::Message;
use sha2::Digest;

verus! {

/// The SHA-256 digest of a byte string.
pub uninterp spec fn sha256_of(bytes: Seq<u8>) -> Seq<u8>;

/// What parsing a raw transaction yields: `None` when the bytes are not a
/// well-formed wire transaction, otherwise the ordered list of messages,
/// each a pair of type tag and encoded payload.
pub uninterp spec fn tx_msgs_parse(bytes: Seq<u8>) -> Option<Seq<(Seq<char>, Seq<u8>)>>;

/// What parsing a bank send payload yields: sender, receiver, and the
/// amount strings of its coins, in order.
pub uninterp spec fn msg_send_parse(data: Seq<u8>) -> Option<(Seq<char>, Seq<char>, Seq<Seq<char>>)>;

/// What parsing a bank multi-send payload yields: the input addresses and
/// the output addresses, in order.
pub uninterp spec fn msg_multi_send_parse(data: Seq<u8>) -> Option<(Seq<Seq<char>>, Seq<Seq<char>>)>;

/// What parsing a staking delegate payload yields: delegator and validator.
pub uninterp spec fn msg_delegate_parse(data: Seq<u8>) -> Option<(Seq<char>, Seq<char>)>;

/// What parsing a staking undelegate payload yields: delegator and validator.
pub uninterp spec fn msg_undelegate_parse(data: Seq<u8>) -> Option<(Seq<char>, Seq<char>)>;

/// What parsing a staking redelegate payload yields: delegator, source
/// validator and destination validator.
pub uninterp spec fn msg_begin_redelegate_parse(data: Seq<u8>) -> Option<(Seq<char>, Seq<char>, Seq<char>)>;

/// What parsing a withdraw-delegator-reward payload yields: delegator and
/// validator.
pub uninterp spec fn msg_withdraw_reward_parse(data: Seq<u8>) -> Option<(Seq<char>, Seq<char>)>;

/// What parsing a withdraw-validator-commission payload yields: the
/// validator address.
pub uninterp spec fn msg_withdraw_commission_parse(data: Seq<u8>) -> Option<Seq<char>>;

/// What parsing a set-withdraw-address payload yields: delegator and
/// withdraw address.
pub uninterp spec fn msg_set_withdraw_address_parse(data: Seq<u8>) -> Option<(Seq<char>, Seq<char>)>;

/// What parsing a fund-community-pool payload yields: the depositor
/// address.
pub uninterp spec fn msg_fund_community_pool_parse(data: Seq<u8>) -> Option<Seq<char>>;

/// Relies on sha2's `Sha256::digest`: the digest depends on the bytes
/// alone and is 32 bytes long.
#[verifier::external_body]
pub(crate) fn sha256(bytes: &Vec<u8>) -> (r: Vec<u8>)
    ensures
        r@ == sha256_of(bytes@),
        r@.len() == 32,
{
    sha2::Sha256::digest(bytes.as_slice()).to_vec()
}

/// Relies on `hex::encode_upper`: two upper-case hexadecimal digits per
/// byte, high nibble first, in byte order.
#[verifier::external_body]
pub(crate) fn hex_encode_upper(bytes: &Vec<u8>) -> (r: String)
    ensures
        r@ == crate::fetch::hex_upper_of(bytes@),
{
    hex::encode_upper(bytes.as_slice())
}

/// Relies on `cosmrs::Tx::from_bytes` (protobuf decoding): whether the
/// bytes parse, and each message's type URL and payload, depend on the
/// bytes alone.
#[verifier::external_body]
pub(crate) fn tx_msgs(bytes: &Vec<u8>) -> (r: Option<Vec<(String, Vec<u8>)>>)
    ensures
        match r {
            Some(ms) => tx_msgs_parse(bytes@) matches Some(s) && ms@.len() == s.len()
                && forall|i: int|
                0 <= i < s.len() ==> (#[trigger] ms@[i]).0@ == s[i].0 && ms@[i].1@ == s[i].1,
            None => tx_msgs_parse(bytes@) is None,
        },
{
    match cosmrs::Tx::from_bytes(bytes.as_slice()) {
        Ok(tx) => Some(tx.body.messages.into_iter().map(|m| (m.type_url, m.value)).collect()),
        Err(_) => None,
    }
}

/// Relies on prost decoding of `cosmos.bank.v1beta1.MsgSend`: sender,
/// receiver and coin amount strings depend on the payload bytes alone.
#[verifier::external_body]
pub(crate) fn msg_send_fields(data: &Vec<u8>) -> (r: Option<(String, String, Vec<String>)>)
    ensures
        match r {
            Some(p) => msg_send_parse(data@) matches Some(s) && p.0@ == s.0 && p.1@ == s.1
                && p.2@.len() == s.2.len()
                && forall|i: int| 0 <= i < s.2.len() ==> (#[trigger] p.2@[i])@ == s.2[i],
            None => msg_send_parse(data@) is None,
        },
{
    match cosmrs::proto::cosmos::bank::v1beta1::MsgSend::decode(&data[..]) {
        Ok(m) => Some((
            m.from_address,
            m.to_address,
            m.amount.into_iter().map(|c| c.amount).collect(),
        )),
        Err(_) => None,
    }
}

/// Relies on prost decoding of `cosmos.bank.v1beta1.MsgMultiSend`: the
/// input and output addresses depend on the payload bytes alone.
#[verifier::external_body]
pub(crate) fn msg_multi_send_fields(data: &Vec<u8>) -> (r: Option<(Vec<String>, Vec<String>)>)
    ensures
        match r {
            Some(p) => msg_multi_send_parse(data@) matches Some(s) && p.0@.len() == s.0.len()
                && p.1@.len() == s.1.len()
                && (forall|i: int| 0 <= i < s.0.len() ==> (#[trigger] p.0@[i])@ == s.0[i])
                && (forall|i: int| 0 <= i < s.1.len() ==> (#[trigger] p.1@[i])@ == s.1[i]),
            None => msg_multi_send_parse(data@) is None,
        },
{
    match cosmrs::proto::cosmos::bank::v1beta1::MsgMultiSend::decode(&data[..]) {
        Ok(m) => Some((
            m.inputs.into_iter().map(|i| i.address).collect(),
            m.outputs.into_iter().map(|o| o.address).collect(),
        )),
        Err(_) => None,
    }
}

/// Relies on prost decoding of `cosmos.staking.v1beta1.MsgDelegate`:
/// delegator and validator depend on the payload bytes alone.
#[verifier::external_body]
pub(crate) fn msg_delegate_fields(data: &Vec<u8>) -> (r: Option<(String, String)>)
    ensures
        match r {
            Some(p) => msg_delegate_parse(data@) matches Some(s) && p.0@ == s.0 && p.1@ == s.1,
            None => msg_delegate_parse(data@) is None,
        },
{
    match cosmrs::proto::cosmos::staking::v1beta1::MsgDelegate::decode(&data[..]) {
        Ok(m) => Some((m.delegator_address, m.validator_address)),
        Err(_) => None,
    }
}

/// Relies on prost decoding of `cosmos.staking.v1beta1.MsgUndelegate`:
/// delegator and validator depend on the payload bytes alone.
#[verifier::external_body]
pub(crate) fn msg_undelegate_fields(data: &Vec<u8>) -> (r: Option<(String, String)>)
    ensures
        match r {
            Some(p) => msg_undelegate_parse(data@) matches Some(s) && p.0@ == s.0 && p.1@ == s.1,
            None => msg_undelegate_parse(data@) is None,
        },
{
    match cosmrs::proto::cosmos::staking::v1beta1::MsgUndelegate::decode(&data[..]) {
        Ok(m) => Some((m.delegator_address, m.validator_address)),
        Err(_) => None,
    }
}

/// Relies on prost decoding of `cosmos.staking.v1beta1.MsgBeginRedelegate`:
/// delegator and the two validators depend on the payload bytes alone.
#[verifier::external_body]
pub(crate) fn msg_begin_redelegate_fields(data: &Vec<u8>) -> (r: Option<(String, String, String)>)
    ensures
        match r {
            Some(p) => msg_begin_redelegate_parse(data@) matches Some(s) && p.0@ == s.0
                && p.1@ == s.1 && p.2@ == s.2,
            None => msg_begin_redelegate_parse(data@) is None,
        },
{
    match cosmrs::proto::cosmos::staking::v1beta1::MsgBeginRedelegate::decode(&data[..]) {
        Ok(m) => Some((m.delegator_address, m.validator_src_address, m.validator_dst_address)),
        Err(_) => None,
    }
}

/// Relies on prost decoding of
/// `cosmos.distribution.v1beta1.MsgWithdrawDelegatorReward`: delegator and
/// validator depend on the payload bytes alone.
#[verifier::external_body]
pub(crate) fn msg_withdraw_reward_fields(data: &Vec<u8>) -> (r: Option<(String, String)>)
    ensures
        match r {
            Some(p) => msg_withdraw_reward_parse(data@) matches Some(s) && p.0@ == s.0
                && p.1@ == s.1,
            None => msg_withdraw_reward_parse(data@) is None,
        },
{
    match cosmrs::proto::cosmos::distribution::v1beta1::MsgWithdrawDelegatorReward::decode(
        &data[..],
    ) {
        Ok(m) => Some((m.delegator_address, m.validator_address)),
        Err(_) => None,
    }
}

/// Relies on prost decoding of
/// `cosmos.distribution.v1beta1.MsgWithdrawValidatorCommission`: the
/// validator depends on the payload bytes alone.
#[verifier::external_body]
pub(crate) fn msg_withdraw_commission_fields(data: &Vec<u8>) -> (r: Option<String>)
    ensures
        match r {
            Some(p) => msg_withdraw_commission_parse(data@) matches Some(s) && p@ == s,
            None => msg_withdraw_commission_parse(data@) is None,
        },
{
    match cosmrs::proto::cosmos::distribution::v1beta1::MsgWithdrawValidatorCommission::decode(
        &data[..],
    ) {
        Ok(m) => Some(m.validator_address),
        Err(_) => None,
    }
}

/// Relies on prost decoding of
/// `cosmos.distribution.v1beta1.MsgSetWithdrawAddress`: delegator and
/// withdraw address depend on the payload bytes alone.
#[verifier::external_body]
pub(crate) fn msg_set_withdraw_address_fields(data: &Vec<u8>) -> (r: Option<(String, String)>)
    ensures
        match r {
            Some(p) => msg_set_withdraw_address_parse(data@) matches Some(s) && p.0@ == s.0
                && p.1@ == s.1,
            None => msg_set_withdraw_address_parse(data@) is None,
        },
{
    match cosmrs::proto::cosmos::distribution::v1beta1::MsgSetWithdrawAddress::decode(&data[..]) {
        Ok(m) => Some((m.delegator_address, m.withdraw_address)),
        Err(_) => None,
    }
}

/// Relies on prost decoding of
/// `cosmos.distribution.v1beta1.MsgFundCommunityPool`: the depositor
/// depends on the payload bytes alone.
#[verifier::external_body]
pub(crate) fn msg_fund_community_pool_fields(data: &Vec<u8>) -> (r: Option<String>)
    ensures
        match r {
            Some(p) => msg_fund_community_pool_parse(data@) matches Some(s) && p@ == s,
            None => msg_fund_community_pool_parse(data@) is None,
        },
{
    match cosmrs::proto::cosmos::distribution::v1beta1::MsgFundCommunityPool::decode(&data[..]) {
        Ok(m) => Some(m.depositor),
        Err(_) => None,
    }
}

} // verus!
