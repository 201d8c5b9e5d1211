//! The decoder: a pure transformation from raw block data, as the chain
//! node hands it out, to the canonical model. Transaction bytes are hashed
//! (upper-case hex of their SHA-256 digest) and parsed into messages; each
//! message's type tag is looked up in the dispatch over the known message
//! kinds to extract participant addresses and value transfers. Unknown
//! tags are tolerated: they yield a message with no addresses. Malformed
//! bytes are a hard error, so that no block is ever indexed partially.
use vstd::prelude::*;

use crate::model::{Block, BlockV, Msg, MsgV, Transfer, TransferV, Tx, TxV};
use crate::wire;

verus! {

use vstd::string::StrSliceExecFns;
use vstd::string::StringExecFns;

/// Why a raw block failed to decode.
#[derive(Debug, Clone, Copy, PartialEq, Eq)]
pub enum DecodeError {
    /// A raw transaction's bytes do not parse as a wire transaction.
    MalformedTx,
    /// A message carries a known type tag but its payload does not parse
    /// as that kind.
    MalformedMsg,
}

/// Raw block data as the chain client returns it: header fields as plain
/// values and the ordered raw transaction byte strings. `time` is the
/// block timestamp as RFC 3339 text.
#[derive(Debug, Clone, PartialEq, Eq)]
pub struct RawBlock {
    pub hash: String,
    pub height: u64,
    pub time: String,
    pub proposer: String,
    pub txs: Vec<Vec<u8>>,
}

/// Mathematical image of a `RawBlock`.
pub struct RawBlockV {
    pub hash: Seq<char>,
    pub height: u64,
    pub time: Seq<char>,
    pub proposer: Seq<char>,
    pub txs: Seq<Seq<u8>>,
}

impl View for RawBlock {
    type V = RawBlockV;

    open spec fn view(&self) -> RawBlockV {
        RawBlockV {
            hash: self.hash@,
            height: self.height,
            time: self.time@,
            proposer: self.proposer@,
            txs: crate::model::views_of_bytes(self.txs@),
        }
    }
}

/// The upper-case hexadecimal digit for a value below sixteen.
pub open spec fn hex_digit_upper(n: int) -> char {
    seq!['0', '1', '2', '3', '4', '5', '6', '7', '8', '9', 'A', 'B', 'C', 'D', 'E', 'F'][n]
}

/// Upper-case hexadecimal encoding: two digits per byte, high nibble
/// first, in byte order.
pub open spec fn hex_upper_of(bytes: Seq<u8>) -> Seq<char> {
    Seq::new(
        bytes.len() * 2,
        |i: int|
            if i % 2 == 0 {
                hex_digit_upper(bytes[i / 2] as int / 16)
            } else {
                hex_digit_upper(bytes[i / 2] as int % 16)
            },
    )
}

/// The transaction hash: upper-case hex of the SHA-256 digest of the raw
/// transaction bytes.
pub open spec fn spec_tx_hash(bytes: Seq<u8>) -> Seq<char> {
    hex_upper_of(wire::sha256_of(bytes))
}

/// Computes the hash of a raw transaction.
pub fn tx_hash(bytes: &Vec<u8>) -> (r: String)
    ensures
        r@ == spec_tx_hash(bytes@),
{
    let digest = wire::sha256(bytes);
    wire::hex_encode_upper(&digest)
}

/// Whether every character of `s` is a decimal digit.
pub open spec fn all_digits(s: Seq<char>) -> bool {
    forall|i: int| 0 <= i < s.len() ==> 48 <= (#[trigger] s[i]) as int <= 57
}

/// The integer value of a digit string, most significant digit first.
pub open spec fn dec_val(s: Seq<char>) -> int
    decreases s.len(),
{
    if s.len() == 0 {
        0
    } else {
        dec_val(s.drop_last()) * 10 + (s.last() as int - 48)
    }
}

/// What parsing a decimal string as a 32-bit amount yields: defined
/// exactly when the string is non-empty, all digits, and its value fits.
pub open spec fn spec_parse_u32(s: Seq<char>) -> Option<u32> {
    if s.len() > 0 && all_digits(s) && dec_val(s) <= u32::MAX {
        Some(dec_val(s) as u32)
    } else {
        None
    }
}

proof fn lemma_dec_val_nonneg(s: Seq<char>)
    requires
        all_digits(s),
    ensures
        dec_val(s) >= 0,
    decreases s.len(),
{
    if s.len() > 0 {
        assert(all_digits(s.drop_last()));
        lemma_dec_val_nonneg(s.drop_last());
    }
}

/// A longer digit prefix never has a smaller value.
proof fn lemma_dec_val_mono(s: Seq<char>, i: int, j: int)
    requires
        all_digits(s),
        0 <= i <= j <= s.len(),
    ensures
        dec_val(s.take(i)) <= dec_val(s.take(j)),
    decreases j - i,
{
    if i < j {
        lemma_dec_val_mono(s, i, j - 1);
        let p = s.take(j);
        assert(p.drop_last() =~= s.take(j - 1));
        assert(all_digits(s.take(j - 1)));
        lemma_dec_val_nonneg(s.take(j - 1));
        assert(dec_val(p) == dec_val(s.take(j - 1)) * 10 + (p.last() as int - 48));
    }
}

/// Parses a decimal string as a 32-bit value; `None` on anything that is
/// not a plain decimal number that fits.
pub fn parse_u32(s: &String) -> (r: Option<u32>)
    ensures
        r == spec_parse_u32(s@),
{
    let st: &str = s.as_str();
    let n: usize = st.unicode_len();
    if n == 0 {
        return None;
    }
    let mut v: u64 = 0;
    let mut i: usize = 0;
    while i < n
        invariant
            0 <= i <= n,
            n == st@.len(),
            st@ == s@,
            all_digits(st@.take(i as int)),
            v == dec_val(st@.take(i as int)),
            v <= u32::MAX,
        decreases n - i,
    {
        let c: char = st.get_char(i);
        let d: u32 = c as u32;
        if d < 48 || d > 57 {
            assert(!all_digits(s@));
            return None;
        }
        let step: u64 = v * 10 + (d - 48) as u64;
        proof {
            assert(st@.take(i + 1).drop_last() =~= st@.take(i as int));
            assert(st@.take(i + 1).last() == st@[i as int]);
            assert(all_digits(st@.take(i + 1)));
            assert(step == dec_val(st@.take(i + 1)));
        }
        if step > 0xFFFF_FFFF {
            proof {
                if all_digits(s@) && dec_val(s@) <= u32::MAX {
                    lemma_dec_val_mono(s@, i + 1, n as int);
                    assert(s@.take(n as int) =~= s@);
                }
            }
            return None;
        }
        v = step;
        i = i + 1;
    }
    proof {
        assert(st@.take(n as int) =~= s@);
    }
    Some(v as u32)
}

/// The type tag of a bank send message.
pub open spec fn tag_send() -> Seq<char> {
    "/cosmos.bank.v1beta1.MsgSend"@
}

/// The type tag of a bank multi-send message.
pub open spec fn tag_multi_send() -> Seq<char> {
    "/cosmos.bank.v1beta1.MsgMultiSend"@
}

/// The type tag of a staking delegate message.
pub open spec fn tag_delegate() -> Seq<char> {
    "/cosmos.staking.v1beta1.MsgDelegate"@
}

/// The type tag of a staking undelegate message.
pub open spec fn tag_undelegate() -> Seq<char> {
    "/cosmos.staking.v1beta1.MsgUndelegate"@
}

/// The type tag of a staking redelegate message.
pub open spec fn tag_begin_redelegate() -> Seq<char> {
    "/cosmos.staking.v1beta1.MsgBeginRedelegate"@
}

/// The type tag of a withdraw-delegator-reward message.
pub open spec fn tag_withdraw_reward() -> Seq<char> {
    "/cosmos.distribution.v1beta1.MsgWithdrawDelegatorReward"@
}

/// The type tag of a withdraw-validator-commission message.
pub open spec fn tag_withdraw_commission() -> Seq<char> {
    "/cosmos.distribution.v1beta1.MsgWithdrawValidatorCommission"@
}

/// The type tag of a set-withdraw-address message.
pub open spec fn tag_set_withdraw_address() -> Seq<char> {
    "/cosmos.distribution.v1beta1.MsgSetWithdrawAddress"@
}

/// The type tag of a fund-community-pool message.
pub open spec fn tag_fund_community_pool() -> Seq<char> {
    "/cosmos.distribution.v1beta1.MsgFundCommunityPool"@
}

/// The dispatch covers exactly these message kinds; any other tag is
/// tolerated with an empty address list.
pub open spec fn is_known_tag(tag: Seq<char>) -> bool {
    ||| tag == tag_send()
    ||| tag == tag_multi_send()
    ||| tag == tag_delegate()
    ||| tag == tag_undelegate()
    ||| tag == tag_begin_redelegate()
    ||| tag == tag_withdraw_reward()
    ||| tag == tag_withdraw_commission()
    ||| tag == tag_set_withdraw_address()
    ||| tag == tag_fund_community_pool()
}

/// Compares a tag against a known type tag literal.
fn tag_is(tag: &String, lit: &str) -> (r: bool)
    ensures
        r == (tag@ == lit@),
{
    let s: String = String::from_str(lit);
    *tag == s
}

/// The participant addresses a message of the given kind contributes, or
/// the decode error for a known kind whose payload does not parse.
/// Unknown kinds contribute no addresses and never fail.
pub open spec fn spec_msg_addresses(tag: Seq<char>, data: Seq<u8>) -> Result<
    Seq<Seq<char>>,
    DecodeError,
> {
    if tag == tag_send() {
        match wire::msg_send_parse(data) {
            Some(s) => Ok(seq![s.0, s.1]),
            None => Err(DecodeError::MalformedMsg),
        }
    } else if tag == tag_multi_send() {
        match wire::msg_multi_send_parse(data) {
            Some(s) => Ok(s.0 + s.1),
            None => Err(DecodeError::MalformedMsg),
        }
    } else if tag == tag_delegate() {
        match wire::msg_delegate_parse(data) {
            Some(s) => Ok(seq![s.0, s.1]),
            None => Err(DecodeError::MalformedMsg),
        }
    } else if tag == tag_undelegate() {
        match wire::msg_undelegate_parse(data) {
            Some(s) => Ok(seq![s.0, s.1]),
            None => Err(DecodeError::MalformedMsg),
        }
    } else if tag == tag_begin_redelegate() {
        match wire::msg_begin_redelegate_parse(data) {
            Some(s) => Ok(seq![s.0, s.1, s.2]),
            None => Err(DecodeError::MalformedMsg),
        }
    } else if tag == tag_withdraw_reward() {
        match wire::msg_withdraw_reward_parse(data) {
            Some(s) => Ok(seq![s.0, s.1]),
            None => Err(DecodeError::MalformedMsg),
        }
    } else if tag == tag_withdraw_commission() {
        match wire::msg_withdraw_commission_parse(data) {
            Some(s) => Ok(seq![s]),
            None => Err(DecodeError::MalformedMsg),
        }
    } else if tag == tag_set_withdraw_address() {
        match wire::msg_set_withdraw_address_parse(data) {
            Some(s) => Ok(seq![s.0, s.1]),
            None => Err(DecodeError::MalformedMsg),
        }
    } else if tag == tag_fund_community_pool() {
        match wire::msg_fund_community_pool_parse(data) {
            Some(s) => Ok(seq![s]),
            None => Err(DecodeError::MalformedMsg),
        }
    } else {
        Ok(Seq::empty())
    }
}

/// The value transfers a message of the given kind contributes: a bank
/// send whose first coin amount is a plain 32-bit decimal yields one
/// transfer; everything else yields none. A send payload that does not
/// parse is the same decode error as for addresses.
pub open spec fn spec_msg_transfers(index: u32, tag: Seq<char>, data: Seq<u8>) -> Result<
    Seq<TransferV>,
    DecodeError,
> {
    if tag == tag_send() {
        match wire::msg_send_parse(data) {
            Some(s) => if s.2.len() > 0 && spec_parse_u32(s.2[0]) is Some {
                Ok(
                    seq![
                        TransferV {
                            index,
                            sender: s.0,
                            receiver: s.1,
                            amount: spec_parse_u32(s.2[0])->0,
                        },
                    ],
                )
            } else {
                Ok(Seq::empty())
            },
            None => Err(DecodeError::MalformedMsg),
        }
    } else {
        Ok(Seq::empty())
    }
}

/// Extracts the participant addresses of one message by its type tag.
#[verifier::loop_isolation(false)]
pub fn msg_addresses(tag: &String, data: &Vec<u8>) -> (r: Result<Vec<String>, DecodeError>)
    ensures
        match r {
            Ok(a) => spec_msg_addresses(tag@, data@) == Ok::<Seq<Seq<char>>, DecodeError>(
                crate::model::views_of_strings(a@),
            ),
            Err(e) => spec_msg_addresses(tag@, data@) == Err::<Seq<Seq<char>>, DecodeError>(e),
        },
{
    let mut out: Vec<String> = Vec::new();
    if tag_is(tag, "/cosmos.bank.v1beta1.MsgSend") {
        match wire::msg_send_fields(data) {
            Some(p) => {
                out.push(p.0);
                out.push(p.1);
            },
            None => {
                return Err(DecodeError::MalformedMsg);
            },
        }
    } else if tag_is(tag, "/cosmos.bank.v1beta1.MsgMultiSend") {
        match wire::msg_multi_send_fields(data) {
            Some(p) => {
                let ghost s = wire::msg_multi_send_parse(data@)->0;
                let mut i: usize = 0;
                while i < p.0.len()
                    invariant
                        0 <= i <= p.0.len(),
                        crate::model::views_of_strings(out@) =~= s.0.take(i as int),
                    decreases p.0.len() - i,
                {
                    out.push(p.0[i].clone());
                    proof {
                        assert(crate::model::views_of_strings(out@) =~= s.0.take(i + 1));
                    }
                    i = i + 1;
                }
                let mut j: usize = 0;
                while j < p.1.len()
                    invariant
                        0 <= j <= p.1.len(),
                        crate::model::views_of_strings(out@) =~= s.0 + s.1.take(j as int),
                    decreases p.1.len() - j,
                {
                    let ghost out_old = out@;
                    out.push(p.1[j].clone());
                    proof {
                        assert(out@ == out_old.push(p.1@[j as int]));
                        assert forall|k: int|
                            0 <= k < out@.len() implies crate::model::views_of_strings(out@)[k] == (
                        s.0 + s.1.take(j + 1))[k] by {
                            if k < out_old.len() {
                                assert(crate::model::views_of_strings(out_old)[k] == (s.0
                                    + s.1.take(j as int))[k]);
                            } else {
                                assert(out@[k] == p.1@[j as int]);
                                assert(p.1@[j as int]@ == s.1[j as int]);
                            }
                        }
                        assert(crate::model::views_of_strings(out@) =~= s.0 + s.1.take(j + 1));
                    }
                    j = j + 1;
                }
                proof {
                    assert(s.0.take(p.0@.len() as int) =~= s.0);
                    assert(s.1.take(p.1@.len() as int) =~= s.1);
                }
            },
            None => {
                return Err(DecodeError::MalformedMsg);
            },
        }
    } else if tag_is(tag, "/cosmos.staking.v1beta1.MsgDelegate") {
        match wire::msg_delegate_fields(data) {
            Some(p) => {
                out.push(p.0);
                out.push(p.1);
            },
            None => {
                return Err(DecodeError::MalformedMsg);
            },
        }
    } else if tag_is(tag, "/cosmos.staking.v1beta1.MsgUndelegate") {
        match wire::msg_undelegate_fields(data) {
            Some(p) => {
                out.push(p.0);
                out.push(p.1);
            },
            None => {
                return Err(DecodeError::MalformedMsg);
            },
        }
    } else if tag_is(tag, "/cosmos.staking.v1beta1.MsgBeginRedelegate") {
        match wire::msg_begin_redelegate_fields(data) {
            Some(p) => {
                out.push(p.0);
                out.push(p.1);
                out.push(p.2);
            },
            None => {
                return Err(DecodeError::MalformedMsg);
            },
        }
    } else if tag_is(tag, "/cosmos.distribution.v1beta1.MsgWithdrawDelegatorReward") {
        match wire::msg_withdraw_reward_fields(data) {
            Some(p) => {
                out.push(p.0);
                out.push(p.1);
            },
            None => {
                return Err(DecodeError::MalformedMsg);
            },
        }
    } else if tag_is(tag, "/cosmos.distribution.v1beta1.MsgWithdrawValidatorCommission") {
        match wire::msg_withdraw_commission_fields(data) {
            Some(p) => {
                out.push(p);
            },
            None => {
                return Err(DecodeError::MalformedMsg);
            },
        }
    } else if tag_is(tag, "/cosmos.distribution.v1beta1.MsgSetWithdrawAddress") {
        match wire::msg_set_withdraw_address_fields(data) {
            Some(p) => {
                out.push(p.0);
                out.push(p.1);
            },
            None => {
                return Err(DecodeError::MalformedMsg);
            },
        }
    } else if tag_is(tag, "/cosmos.distribution.v1beta1.MsgFundCommunityPool") {
        match wire::msg_fund_community_pool_fields(data) {
            Some(p) => {
                out.push(p);
            },
            None => {
                return Err(DecodeError::MalformedMsg);
            },
        }
    }
    proof {
        assert(spec_msg_addresses(tag@, data@) matches Ok(s) && crate::model::views_of_strings(
            out@,
        ) =~= s);
    }
    Ok(out)
}

/// Extracts the value transfers of one message by its type tag.
pub fn msg_transfers(index: u32, tag: &String, data: &Vec<u8>) -> (r: Result<
    Vec<Transfer>,
    DecodeError,
>)
    ensures
        match r {
            Ok(t) => spec_msg_transfers(index, tag@, data@) == Ok::<Seq<TransferV>, DecodeError>(
                crate::model::views_of_transfers(t@),
            ),
            Err(e) => spec_msg_transfers(index, tag@, data@) == Err::<Seq<TransferV>, DecodeError>(
                e,
            ),
        },
{
    let mut out: Vec<Transfer> = Vec::new();
    if tag_is(tag, "/cosmos.bank.v1beta1.MsgSend") {
        match wire::msg_send_fields(data) {
            Some(p) => {
                if p.2.len() > 0 {
                    match parse_u32(&p.2[0]) {
                        Some(amount) => {
                            out.push(
                                Transfer { index, sender: p.0, receiver: p.1, amount },
                            );
                        },
                        None => {},
                    }
                }
            },
            None => {
                return Err(DecodeError::MalformedMsg);
            },
        }
    }
    proof {
        assert(spec_msg_transfers(index, tag@, data@) matches Ok(s)
            && crate::model::views_of_transfers(out@) =~= s);
    }
    Ok(out)
}

/// What one message decodes to: its tag and payload kept as they came,
/// plus the addresses and transfers its kind contributes.
pub open spec fn spec_msg_to_model(index: u32, tag: Seq<char>, data: Seq<u8>) -> Result<
    MsgV,
    DecodeError,
> {
    match spec_msg_addresses(tag, data) {
        Ok(addrs) => match spec_msg_transfers(index, tag, data) {
            Ok(trs) => Ok(
                MsgV { index, tag, data, addresses: addrs, transfers: trs },
            ),
            Err(e) => Err(e),
        },
        Err(e) => Err(e),
    }
}

/// Copies a byte vector.
#[verifier::loop_isolation(false)]
pub(crate) fn copy_bytes(v: &Vec<u8>) -> (r: Vec<u8>)
    ensures
        r@ == v@,
{
    let mut out: Vec<u8> = Vec::new();
    let mut i: usize = 0;
    while i < v.len()
        invariant
            0 <= i <= v@.len(),
            out@ =~= v@.take(i as int),
        decreases v@.len() - i,
    {
        out.push(v[i]);
        i = i + 1;
    }
    proof {
        assert(v@.take(v@.len() as int) =~= v@);
    }
    out
}

/// Decodes one message of a transaction.
pub fn msg_to_model(index: u32, tag: &String, data: &Vec<u8>) -> (r: Result<Msg, DecodeError>)
    ensures
        match r {
            Ok(m) => spec_msg_to_model(index, tag@, data@) == Ok::<MsgV, DecodeError>(m@),
            Err(e) => spec_msg_to_model(index, tag@, data@) == Err::<MsgV, DecodeError>(e),
        },
{
    match msg_addresses(tag, data) {
        Ok(addresses) => match msg_transfers(index, tag, data) {
            Ok(transfers) => Ok(
                Msg { index, tag: tag.clone(), data: copy_bytes(data), addresses, transfers },
            ),
            Err(e) => Err(e),
        },
        Err(e) => Err(e),
    }
}

/// What a transaction's message list decodes to, message by message in
/// order; the first failing message's error wins.
pub open spec fn spec_tx_msgs_to_model(msgs: Seq<(Seq<char>, Seq<u8>)>) -> Result<
    Seq<MsgV>,
    DecodeError,
>
    decreases msgs.len(),
{
    if msgs.len() == 0 {
        Ok(Seq::empty())
    } else {
        match spec_tx_msgs_to_model(msgs.drop_last()) {
            Ok(rest) => match spec_msg_to_model(
                (msgs.len() - 1) as u32,
                msgs.last().0,
                msgs.last().1,
            ) {
                Ok(m) => Ok(rest.push(m)),
                Err(e) => Err(e),
            },
            Err(e) => Err(e),
        }
    }
}

/// An error on a prefix of the message list is an error on the whole.
proof fn lemma_tx_msgs_err(s: Seq<(Seq<char>, Seq<u8>)>, i: int, e: DecodeError)
    requires
        0 <= i <= s.len(),
        spec_tx_msgs_to_model(s.take(i)) == Err::<Seq<MsgV>, DecodeError>(e),
    ensures
        spec_tx_msgs_to_model(s) == Err::<Seq<MsgV>, DecodeError>(e),
    decreases s.len() - i,
{
    if i < s.len() {
        assert(s.take(i + 1).drop_last() =~= s.take(i));
        lemma_tx_msgs_err(s, i + 1, e);
    } else {
        assert(s.take(i) =~= s);
    }
}

/// What one raw transaction decodes to: `None` from the wire parse is a
/// malformed transaction; a message list too long for 32-bit indices
/// cannot be represented and counts as malformed too.
pub open spec fn spec_tx_to_model(index: u32, bytes: Seq<u8>) -> Result<TxV, DecodeError> {
    match wire::tx_msgs_parse(bytes) {
        None => Err(DecodeError::MalformedTx),
        Some(ms) => if ms.len() > u32::MAX {
            Err(DecodeError::MalformedTx)
        } else {
            match spec_tx_msgs_to_model(ms) {
                Ok(mvs) => Ok(TxV { hash: spec_tx_hash(bytes), index, msgs: mvs }),
                Err(e) => Err(e),
            }
        },
    }
}

/// Decodes one raw transaction at its position in the block.
#[verifier::loop_isolation(false)]
pub fn tx_to_model(index: u32, bytes: &Vec<u8>) -> (r: Result<Tx, DecodeError>)
    ensures
        match r {
            Ok(t) => spec_tx_to_model(index, bytes@) == Ok::<TxV, DecodeError>(t@),
            Err(e) => spec_tx_to_model(index, bytes@) == Err::<TxV, DecodeError>(e),
        },
{
    match wire::tx_msgs(bytes) {
        None => Err(DecodeError::MalformedTx),
        Some(ms) => {
            let ghost sv = wire::tx_msgs_parse(bytes@)->0;
            if ms.len() > 0xFFFF_FFFFusize {
                return Err(DecodeError::MalformedTx);
            }
            let mut msgs: Vec<Msg> = Vec::new();
            let mut i: usize = 0;
            proof {
                assert(sv.take(0) =~= Seq::<(Seq<char>, Seq<u8>)>::empty());
                assert(crate::model::views_of_msgs(msgs@) =~= Seq::<MsgV>::empty());
            }
            while i < ms.len()
                invariant
                    0 <= i <= ms@.len(),
                    spec_tx_msgs_to_model(sv.take(i as int)) == Ok::<Seq<MsgV>, DecodeError>(
                        crate::model::views_of_msgs(msgs@),
                    ),
                decreases ms@.len() - i,
            {
                let m = &ms[i];
                match msg_to_model(i as u32, &m.0, &m.1) {
                    Ok(mm) => {
                        let ghost msgs_old = msgs@;
                        msgs.push(mm);
                        proof {
                            assert(sv.take(i + 1).drop_last() =~= sv.take(i as int));
                            assert(crate::model::views_of_msgs(msgs@) =~= crate::model::views_of_msgs(
                                msgs_old,
                            ).push(mm@));
                        }
                    },
                    Err(e) => {
                        proof {
                            assert(sv.take(i + 1).drop_last() =~= sv.take(i as int));
                            lemma_tx_msgs_err(sv, i + 1, e);
                        }
                        return Err(e);
                    },
                }
                i = i + 1;
            }
            proof {
                assert(sv.take(sv.len() as int) =~= sv);
            }
            Ok(Tx { hash: tx_hash(bytes), index, msgs })
        },
    }
}

/// What a block's transaction list decodes to, transaction by transaction
/// in order; the first failing transaction's error wins.
pub open spec fn spec_block_txs_to_model(txs: Seq<Seq<u8>>) -> Result<Seq<TxV>, DecodeError>
    decreases txs.len(),
{
    if txs.len() == 0 {
        Ok(Seq::empty())
    } else {
        match spec_block_txs_to_model(txs.drop_last()) {
            Ok(rest) => match spec_tx_to_model((txs.len() - 1) as u32, txs.last()) {
                Ok(t) => Ok(rest.push(t)),
                Err(e) => Err(e),
            },
            Err(e) => Err(e),
        }
    }
}

/// An error on a prefix of the transaction list is an error on the whole.
proof fn lemma_block_txs_err(s: Seq<Seq<u8>>, i: int, e: DecodeError)
    requires
        0 <= i <= s.len(),
        spec_block_txs_to_model(s.take(i)) == Err::<Seq<TxV>, DecodeError>(e),
    ensures
        spec_block_txs_to_model(s) == Err::<Seq<TxV>, DecodeError>(e),
    decreases s.len() - i,
{
    if i < s.len() {
        assert(s.take(i + 1).drop_last() =~= s.take(i));
        lemma_block_txs_err(s, i + 1, e);
    } else {
        assert(s.take(i) =~= s);
    }
}

/// What a raw block decodes to: header fields carried over as plain
/// values, transactions decoded in order. A transaction list too long for
/// 32-bit indices cannot be represented and is malformed.
pub open spec fn spec_block_to_model(raw: RawBlockV) -> Result<BlockV, DecodeError> {
    if raw.txs.len() > u32::MAX {
        Err(DecodeError::MalformedTx)
    } else {
        match spec_block_txs_to_model(raw.txs) {
            Ok(txs) => Ok(
                BlockV {
                    hash: raw.hash,
                    height: raw.height,
                    time: raw.time,
                    proposer: raw.proposer,
                    txs,
                },
            ),
            Err(e) => Err(e),
        }
    }
}

/// The messages of a decoded message list carry their positions.
proof fn lemma_tx_msgs_indices(ms: Seq<(Seq<char>, Seq<u8>)>, mvs: Seq<MsgV>)
    requires
        spec_tx_msgs_to_model(ms) == Ok::<Seq<MsgV>, DecodeError>(mvs),
    ensures
        mvs.len() == ms.len(),
        forall|j: int| 0 <= j < mvs.len() ==> (#[trigger] mvs[j]).index == (j as u32),
    decreases ms.len(),
{
    if ms.len() > 0 {
        let rest = spec_tx_msgs_to_model(ms.drop_last())->Ok_0;
        lemma_tx_msgs_indices(ms.drop_last(), rest);
    }
}

/// A decoded transaction list is well formed: every transaction carries
/// its position, and so does every message within it.
proof fn lemma_block_txs_wf(ts: Seq<Seq<u8>>, tvs: Seq<TxV>)
    requires
        ts.len() <= u32::MAX,
        spec_block_txs_to_model(ts) == Ok::<Seq<TxV>, DecodeError>(tvs),
    ensures
        tvs.len() == ts.len(),
        forall|i: int| 0 <= i < tvs.len() ==> crate::model::tx_wf(#[trigger] tvs[i], i),
    decreases ts.len(),
{
    if ts.len() > 0 {
        let rest = spec_block_txs_to_model(ts.drop_last())->Ok_0;
        lemma_block_txs_wf(ts.drop_last(), rest);
        let last = spec_tx_to_model((ts.len() - 1) as u32, ts.last())->Ok_0;
        let lms = wire::tx_msgs_parse(ts.last())->0;
        lemma_tx_msgs_indices(lms, last.msgs);
        assert(crate::model::tx_wf(last, ts.len() - 1));
    }
}

/// Decodes a raw block into the canonical model. On success the result is
/// exactly what `spec_block_to_model` names, and it is well formed.
#[verifier::loop_isolation(false)]
pub fn block_to_model(raw: &RawBlock) -> (r: Result<Block, DecodeError>)
    ensures
        match r {
            Ok(b) => spec_block_to_model(raw@) == Ok::<BlockV, DecodeError>(b@),
            Err(e) => spec_block_to_model(raw@) == Err::<BlockV, DecodeError>(e),
        },
        r matches Ok(b) ==> crate::model::block_wf(b@) && b@.height == raw@.height,
{
    if raw.txs.len() > 0xFFFF_FFFFusize {
        return Err(DecodeError::MalformedTx);
    }
    let ghost rv = crate::model::views_of_bytes(raw.txs@);
    let mut txs: Vec<Tx> = Vec::new();
    let mut i: usize = 0;
    proof {
        assert(rv.take(0) =~= Seq::<Seq<u8>>::empty());
        assert(crate::model::views_of_txs(txs@) =~= Seq::<TxV>::empty());
    }
    while i < raw.txs.len()
        invariant
            0 <= i <= raw.txs@.len(),
            spec_block_txs_to_model(rv.take(i as int)) == Ok::<Seq<TxV>, DecodeError>(
                crate::model::views_of_txs(txs@),
            ),
        decreases raw.txs@.len() - i,
    {
        match tx_to_model(i as u32, &raw.txs[i]) {
            Ok(t) => {
                let ghost txs_old = txs@;
                txs.push(t);
                proof {
                    assert(rv.take(i + 1).drop_last() =~= rv.take(i as int));
                    assert(crate::model::views_of_txs(txs@) =~= crate::model::views_of_txs(
                        txs_old,
                    ).push(t@));
                }
            },
            Err(e) => {
                proof {
                    assert(rv.take(i + 1).drop_last() =~= rv.take(i as int));
                    lemma_block_txs_err(rv, i + 1, e);
                }
                return Err(e);
            },
        }
        i = i + 1;
    }
    proof {
        assert(rv.take(rv.len() as int) =~= rv);
        lemma_block_txs_wf(rv, crate::model::views_of_txs(txs@));
    }
    Ok(
        Block {
            hash: raw.hash.clone(),
            height: raw.height,
            time: raw.time.clone(),
            proposer: raw.proposer.clone(),
            txs,
        },
    )
}

/// Law: decoding is deterministic. What a raw block decodes to is a
/// function of the raw bytes alone, hash values included, so two decodes
/// of identical input yield identical results.
pub proof fn lemma_decode_deterministic(
    raw: RawBlockV,
    r1: Result<BlockV, DecodeError>,
    r2: Result<BlockV, DecodeError>,
)
    requires
        r1 == spec_block_to_model(raw),
        r2 == spec_block_to_model(raw),
    ensures
        r1 == r2,
{
}

/// Law: a message with an unknown type tag decodes successfully, with an
/// empty address list and no transfers.
pub proof fn lemma_unknown_tag_tolerated(index: u32, tag: Seq<char>, data: Seq<u8>)
    requires
        !is_known_tag(tag),
    ensures
        spec_msg_to_model(index, tag, data) == Ok::<MsgV, DecodeError>(
            MsgV { index, tag, data, addresses: Seq::empty(), transfers: Seq::empty() },
        ),
{
}

/// Law: a transaction's messages decode as a whole exactly when each of
/// them decodes on its own; with the law above, an unknown-tag message
/// never aborts the decoding of its sibling messages.
pub proof fn lemma_tx_msgs_ok_iff(ms: Seq<(Seq<char>, Seq<u8>)>)
    ensures
        spec_tx_msgs_to_model(ms) is Ok <==> (forall|j: int|
            0 <= j < ms.len() ==> spec_msg_to_model(
                j as u32,
                (#[trigger] ms[j]).0,
                ms[j].1,
            ) is Ok),
    decreases ms.len(),
{
    if ms.len() > 0 {
        lemma_tx_msgs_ok_iff(ms.drop_last());
        assert(forall|j: int| 0 <= j < ms.len() - 1 ==> ms.drop_last()[j] == ms[j]);
        assert(ms.last() == ms[ms.len() - 1]);
    }
}

} // verus!
