//! Queries of received payments from a block explorer (Etherscan) and
//! which of its answers count as confirmed incoming payments.
use vstd::prelude::*;
use crate::asset::AssetType;
use crate::error::GatewayError;
use crate::export::{append_decimal, decimal};
use crate::hex::hex_lower;
use crate::model::clone_str;

verus! {

/// One transaction as the explorer lists it.
pub struct PaymentQueryResult {
    pub hash: String,
    pub from: String,
    pub to: String,
    pub value: String,
    pub time_stamp: String,
    pub block_number: String,
    pub token_symbol: Option<String>,
    /// `Some("0")` for success, `Some("1")` for failure; absent for token
    /// transfers.
    pub is_error: Option<String>,
}

impl PaymentQueryResult {
    pub fn duplicate(&self) -> (r: Self)
        ensures
            r == *self,
    {
        PaymentQueryResult {
            hash: clone_str(&self.hash),
            from: clone_str(&self.from),
            to: clone_str(&self.to),
            value: clone_str(&self.value),
            time_stamp: clone_str(&self.time_stamp),
            block_number: clone_str(&self.block_number),
            token_symbol: match &self.token_symbol {
                Some(s) => Some(clone_str(s)),
                None => None,
            },
            is_error: match &self.is_error {
                Some(s) => Some(clone_str(s)),
                None => None,
            },
        }
    }
}

/// A key and value of a query string.
pub struct QueryPair {
    pub key: String,
    pub value: String,
}

pub open spec fn pair_views(ps: Seq<QueryPair>) -> Seq<(Seq<char>, Seq<char>)> {
    ps.map_values(|p: QueryPair| (p.key@, p.value@))
}

fn pair(key: &str, value: String) -> (r: QueryPair)
    ensures
        r.key@ == key@,
        r.value == value,
{
    QueryPair { key: String::from_str(key), value }
}

fn lit(s: &str) -> (r: String)
    ensures
        r@ == s@,
{
    String::from_str(s)
}

fn decimal_string(n: u64) -> (r: String)
    ensures
        r@ == decimal(n as nat),
{
    let mut s = String::new();
    append_decimal(&mut s, n);
    proof {
        assert(s@ =~= decimal(n as nat));
    }
    s
}

/// The query pairs for the native-coin payments of an address.
pub open spec fn native_query(action: Seq<char>, address: Seq<char>, start: u64, token: Seq<char>) -> Seq<
    (Seq<char>, Seq<char>),
> {
    seq![
        ("module"@, "account"@),
        ("action"@, action),
        ("address"@, address),
        ("startblock"@, decimal(start as nat)),
        ("endblock"@, "99999999"@),
        ("page"@, "1"@),
        ("offset"@, "100"@),
        ("sort"@, "desc"@),
        ("apikey"@, token),
    ]
}

/// The query pairs for the token payments of an address.
pub open spec fn token_query(address: Seq<char>, start: u64, contract: Seq<u8>, token: Seq<char>) -> Seq<
    (Seq<char>, Seq<char>),
> {
    seq![
        ("module"@, "account"@),
        ("action"@, "tokentx"@),
        ("address"@, address),
        ("startblock"@, decimal(start as nat)),
        ("endblock"@, "999999999"@),
        ("page"@, "1"@),
        ("offset"@, "100"@),
        ("sort"@, "desc"@),
        ("contractaddress"@, seq!['0', 'x'] + hex_lower(contract)),
        ("apikey"@, token),
    ]
}

/// The query for the payments of `asset_type` received by `address` (in
/// hex) from block `start` on: native coins by normal or internal
/// transactions, tokens by transfers of the asset's contract.
pub fn payment_query_pairs(
    token: &str,
    address: &str,
    asset_type: AssetType,
    contract_address: Option<[u8; 20]>,
    start: u64,
    is_eth_internal_tx: bool,
) -> (r: Result<Vec<QueryPair>, GatewayError>)
    ensures
        !asset_type.erc20_compatible() ==> (r matches Ok(ps) && pair_views(ps@) == native_query(
            if is_eth_internal_tx {
                "txlistinternal"@
            } else {
                "txlist"@
            },
            address@,
            start,
            token@,
        )),
        asset_type.erc20_compatible() && contract_address is None ==> r == Err::<Vec<QueryPair>, GatewayError>(
            GatewayError::MissingContractAddress,
        ),
        asset_type.erc20_compatible() && contract_address is Some ==> (r matches Ok(ps) && pair_views(ps@)
            == token_query(address@, start, contract_address->0@, token@)),
{
    let mut ps: Vec<QueryPair> = Vec::new();
    if !asset_type.is_erc20_compatible() {
        let action = if is_eth_internal_tx {
            "txlistinternal"
        } else {
            "txlist"
        };
        ps.push(pair("module", lit("account")));
        ps.push(pair("action", lit(action)));
        ps.push(pair("address", lit(address)));
        ps.push(pair("startblock", decimal_string(start)));
        ps.push(pair("endblock", lit("99999999")));
        ps.push(pair("page", lit("1")));
        ps.push(pair("offset", lit("100")));
        ps.push(pair("sort", lit("desc")));
        ps.push(pair("apikey", lit(token)));
        proof {
            assert(pair_views(ps@) =~= native_query(
                if is_eth_internal_tx {
                    "txlistinternal"@
                } else {
                    "txlist"@
                },
                address@,
                start,
                token@,
            ));
        }
        Ok(ps)
    } else {
        let contract = match contract_address {
            Some(c) => c,
            None => {
                return Err(GatewayError::MissingContractAddress);
            },
        };
        let contract_vec = vstd::slice::slice_to_vec(contract.as_slice());
        ps.push(pair("module", lit("account")));
        ps.push(pair("action", lit("tokentx")));
        ps.push(pair("address", lit(address)));
        ps.push(pair("startblock", decimal_string(start)));
        ps.push(pair("endblock", lit("999999999")));
        ps.push(pair("page", lit("1")));
        ps.push(pair("offset", lit("100")));
        ps.push(pair("sort", lit("desc")));
        ps.push(pair("contractaddress", crate::hex::raw_transaction_hex(&contract_vec)));
        ps.push(pair("apikey", lit(token)));
        proof {
            assert(pair_views(ps@) =~= token_query(address@, start, contract@, token@));
        }
        Ok(ps)
    }
}

/// The query for new payments of `asset_type` to `address`: only assets
/// of an EVM chain are looked up at the explorer (see
/// `payment_query_pairs`).
pub fn received_payment_query(
    token: &str,
    address: &str,
    asset_type: AssetType,
    contract_address: Option<[u8; 20]>,
    start: u64,
    is_eth_internal_tx: bool,
) -> (r: Result<Vec<QueryPair>, GatewayError>)
    ensures
        !asset_type.evm_compatible() ==> r == Err::<Vec<QueryPair>, GatewayError>(GatewayError::UnsupportedAssetType),
        asset_type.evm_compatible() && !asset_type.erc20_compatible() ==> (r matches Ok(ps) && pair_views(ps@)
            == native_query(
            if is_eth_internal_tx {
                "txlistinternal"@
            } else {
                "txlist"@
            },
            address@,
            start,
            token@,
        )),
        asset_type.erc20_compatible() && contract_address is None ==> r == Err::<Vec<QueryPair>, GatewayError>(
            GatewayError::MissingContractAddress,
        ),
        asset_type.erc20_compatible() && contract_address is Some ==> (r matches Ok(ps) && pair_views(ps@)
            == token_query(address@, start, contract_address->0@, token@)),
{
    if !asset_type.is_evm_compatible() {
        return Err(GatewayError::UnsupportedAssetType);
    }
    payment_query_pairs(token, address, asset_type, contract_address, start, is_eth_internal_tx)
}

/// The text of the URL written `url` (read with `Url::parse`) after
/// `query_pairs_mut().append_pair(key, value)`, or `None` when `url`
/// refuses the text; as the crate computes it. The name covers the three
/// steps: reading the URL, appending the pair, writing the URL back.
pub uninterp spec fn url_pair_appended(url: Seq<char>, key: Seq<char>, value: Seq<char>) -> Option<Seq<char>>;

/// `Url::query_pairs_mut().append_pair(key, value)` on the URL written
/// `url`, which is read with `Url::parse` and handed back as its text.
/// Its result is only named.
#[verifier::external_body]
fn url_append_pair(url: &str, key: &str, value: &str) -> (r: Option<String>)
    ensures
        match url_pair_appended(url@, key@, value@) {
            Some(t) => r matches Some(s) && s@ == t,
            None => r is None,
        },
{
    match url::Url::parse(url) {
        Ok(mut u) => {
            u.query_pairs_mut().append_pair(key, value);
            Some(u.to_string())
        },
        Err(_) => None,
    }
}

/// The URL written `u` after the pairs `ps` are appended one by one, in
/// order (see `url_pair_appended`); `None` once `url` refuses it.
pub open spec fn url_with_pairs(u: Seq<char>, ps: Seq<(Seq<char>, Seq<char>)>) -> Option<Seq<char>>
    decreases ps.len(),
{
    if ps.len() == 0 {
        Some(u)
    } else {
        match url_with_pairs(u, ps.drop_last()) {
            Some(t) => url_pair_appended(t, ps.last().0, ps.last().1),
            None => None,
        }
    }
}

/// The URL written `url` with `pairs` appended to its query, in order;
/// fails when `url` refuses the URL.
pub fn append_query(url: &str, pairs: &Vec<QueryPair>) -> (r: Result<String, GatewayError>)
    ensures
        match url_with_pairs(url@, pair_views(pairs@)) {
            Some(t) => r matches Ok(s) && s@ == t,
            None => r == Err::<String, GatewayError>(GatewayError::InvalidUrl),
        },
{
    let ghost ps = pair_views(pairs@);
    let mut current = String::from_str(url);
    let mut i: usize = 0;
    proof {
        assert(ps.take(0) =~= Seq::<(Seq<char>, Seq<char>)>::empty());
    }
    while i < pairs.len()
        invariant
            i <= pairs@.len(),
            ps == pair_views(pairs@),
            url_with_pairs(url@, ps.take(i as int)) == Some(current@),
        decreases pairs@.len() - i,
    {
        proof {
            assert(ps.take(i as int + 1).drop_last() =~= ps.take(i as int));
            assert(ps.take(i as int + 1).last() == (pairs@[i as int].key@, pairs@[i as int].value@));
        }
        match url_append_pair(current.as_str(), pairs[i].key.as_str(), pairs[i].value.as_str()) {
            Some(next) => {
                current = next;
            },
            None => {
                proof {
                    // every later pair keeps the refusal
                    lemma_refusal_stays(url@, ps, i as int + 1);
                    assert(ps.take(ps.len() as int) =~= ps);
                }
                return Err(GatewayError::InvalidUrl);
            },
        }
        i = i + 1;
    }
    proof {
        assert(ps.take(i as int) =~= ps);
    }
    Ok(current)
}

/// Once `url` refuses the URL after `k` pairs, it stays refused.
proof fn lemma_refusal_stays(u: Seq<char>, ps: Seq<(Seq<char>, Seq<char>)>, k: int)
    requires
        0 <= k <= ps.len(),
        url_with_pairs(u, ps.take(k)) is None,
    ensures
        url_with_pairs(u, ps) is None,
    decreases ps.len() - k,
{
    if k < ps.len() {
        assert(ps.take(k + 1).drop_last() =~= ps.take(k));
        lemma_refusal_stays(u, ps, k + 1);
    } else {
        assert(ps.take(k) =~= ps);
    }
}

/// Whether the explorer lists the transaction as successful: its error
/// flag is absent or `"0"`.
pub open spec fn succeeded(is_error: Option<String>) -> bool {
    match is_error {
        None => true,
        Some(e) => e@ == "0"@,
    }
}

/// The listed transactions sent to `address` that succeeded, in order.
pub open spec fn incoming_successful(txs: Seq<PaymentQueryResult>, address: Seq<char>) -> Seq<PaymentQueryResult>
    decreases txs.len(),
{
    if txs.len() == 0 {
        Seq::empty()
    } else {
        let rest = incoming_successful(txs.drop_last(), address);
        let t = txs.last();
        if t.to@ == address && succeeded(t.is_error) {
            rest.push(t)
        } else {
            rest
        }
    }
}

/// Keeps the listed transactions sent to `address` that succeeded.
pub fn filter_incoming_successful(txs: &Vec<PaymentQueryResult>, address: &String) -> (r: Vec<PaymentQueryResult>)
    ensures
        r@ == incoming_successful(txs@, address@),
{
    proof {
        reveal_strlit("0");
    }
    let zero = lit("0");
    let mut out: Vec<PaymentQueryResult> = Vec::new();
    let mut i: usize = 0;
    proof {
        assert(txs@.take(0) =~= Seq::<PaymentQueryResult>::empty());
    }
    while i < txs.len()
        invariant
            i <= txs@.len(),
            zero@ == "0"@,
            out@ == incoming_successful(txs@.take(i as int), address@),
        decreases txs@.len() - i,
    {
        let t = &txs[i];
        proof {
            assert(txs@.take(i as int + 1).drop_last() =~= txs@.take(i as int));
            assert(txs@.take(i as int + 1).last() == *t);
        }
        let ok = match &t.is_error {
            None => true,
            Some(e) => e.eq(&zero),
        };
        if t.to.eq(address) && ok {
            out.push(t.duplicate());
        }
        i = i + 1;
    }
    proof {
        assert(txs@.take(i as int) =~= txs@);
    }
    out
}

/// The address of the receipt status of `tx_hash` at the explorer `base`.
pub fn receipt_status_url(base: &str, tx_hash: &str, token: &str) -> (r: String)
    ensures
        r@ == base@ + "?module=transaction&action=gettxreceiptstatus&txhash="@ + tx_hash@ + "&apikey="@
            + token@,
{
    let mut s = String::from_str(base);
    s.append("?module=transaction&action=gettxreceiptstatus&txhash=");
    s.append(tx_hash);
    s.append("&apikey=");
    s.append(token);
    s
}

/// Whether a receipt status confirms the transaction: it is `"1"`.
pub fn receipt_confirmed(status: &Option<String>) -> (r: bool)
    ensures
        r == (status matches Some(s) && s@ == "1"@),
{
    match status {
        Some(s) => s.eq(&lit("1")),
        None => false,
    }
}

/// The transactions whose receipt status (as queried, in the same order)
/// confirms them, in order.
pub open spec fn confirmed(txs: Seq<PaymentQueryResult>, statuses: Seq<Option<String>>) -> Seq<PaymentQueryResult>
    decreases txs.len(),
{
    if txs.len() == 0 {
        Seq::empty()
    } else {
        let rest = confirmed(txs.drop_last(), statuses.drop_last());
        if statuses.last() matches Some(s) && s@ == "1"@ {
            rest.push(txs.last())
        } else {
            rest
        }
    }
}

/// Keeps the transactions whose receipt status is `"1"`; `statuses[i]`
/// is the status read for `txs[i]`, absent when it could not be read.
pub fn check_tx_receipt_status(txs: &Vec<PaymentQueryResult>, statuses: &Vec<Option<String>>) -> (r: Vec<PaymentQueryResult>)
    requires
        statuses@.len() == txs@.len(),
    ensures
        r@ == confirmed(txs@, statuses@),
{
    let mut out: Vec<PaymentQueryResult> = Vec::new();
    let mut i: usize = 0;
    proof {
        assert(txs@.take(0) =~= Seq::<PaymentQueryResult>::empty());
    }
    while i < txs.len()
        invariant
            i <= txs@.len(),
            statuses@.len() == txs@.len(),
            out@ == confirmed(txs@.take(i as int), statuses@.take(i as int)),
        decreases txs@.len() - i,
    {
        proof {
            assert(txs@.take(i as int + 1).drop_last() =~= txs@.take(i as int));
            assert(statuses@.take(i as int + 1).drop_last() =~= statuses@.take(i as int));
            assert(txs@.take(i as int + 1).last() == txs@[i as int]);
            assert(statuses@.take(i as int + 1).last() == statuses@[i as int]);
        }
        if receipt_confirmed(&statuses[i]) {
            out.push(txs[i].duplicate());
        }
        i = i + 1;
    }
    proof {
        assert(txs@.take(i as int) =~= txs@);
        assert(statuses@.take(i as int) =~= statuses@);
    }
    out
}

} // verus!
