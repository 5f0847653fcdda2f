//! The Bitcoin (Esplora) service: its endpoints, and how its answers
//! become UTXO records, fee rates and submission outcomes.
use vstd::prelude::*;
use std::collections::HashMap;
use crate::error::GatewayError;
use crate::hex::{parse_u64_decimal, parse_u64_dec};
use crate::model::clone_str;
use crate::payment::{AddressUtxoRecords, UtxoRecord};
use crate::rpc::TxSubmissionResult;

verus! {

/// The confirmation status of an output, as the service reports it.
pub struct UtxoStatus {
    pub block_height: u32,
    pub block_hash: String,
    pub block_time: u64,
}

/// An unspent output, as the service reports it.
pub struct UtxoQueryResult {
    pub txid: String,
    pub vout: u64,
    pub value: u64,
    pub status: UtxoStatus,
}

/// The address of the outputs of `address` at the service `base`.
pub fn utxo_endpoint(base: &str, address: &str) -> (r: String)
    ensures
        r@ == base@ + "/address/"@ + address@ + "/utxo"@,
{
    let mut s = String::from_str(base);
    s.append("/address/");
    s.append(address);
    s.append("/utxo");
    s
}

/// The address of the fee estimates at the service `base`.
pub fn fee_estimates_endpoint(base: &str) -> (r: String)
    ensures
        r@ == base@ + "/fee-estimates"@,
{
    let mut s = String::from_str(base);
    s.append("/fee-estimates");
    s
}

/// The address where transactions are broadcast at the service `base`.
pub fn broadcast_endpoint(base: &str) -> (r: String)
    ensures
        r@ == base@ + "/tx"@,
{
    let mut s = String::from_str(base);
    s.append("/tx");
    s
}

/// `r` is the record of output `q` received by `address`.
pub open spec fn utxo_from_query(address: Seq<char>, q: UtxoQueryResult, r: UtxoRecord) -> bool {
    &&& r.address@ == address
    &&& r.txid@ == q.txid@
    &&& r.vout == q.vout
    &&& r.value == q.value
    &&& r.block_height == q.status.block_height
    &&& r.block_hash@ == q.status.block_hash@
    &&& r.block_time == q.status.block_time
}

/// The outputs that could be read, in order.
pub open spec fn read_outputs(items: Seq<Option<UtxoQueryResult>>) -> Seq<UtxoQueryResult>
    decreases items.len(),
{
    if items.len() == 0 {
        Seq::empty()
    } else {
        match items.last() {
            Some(q) => read_outputs(items.drop_last()).push(q),
            None => read_outputs(items.drop_last()),
        }
    }
}

/// The outputs of `address` from the service's answer: a failed answer
/// is an error; of a successful one, the outputs that could be read
/// (`None` for one that could not), in order.
pub fn utxo_records_from_answer(address: &String, success: bool, items: &Vec<Option<UtxoQueryResult>>) -> (r: Result<
    AddressUtxoRecords,
    GatewayError,
>)
    ensures
        !success ==> r == Err::<AddressUtxoRecords, GatewayError>(GatewayError::ServiceFailure),
        success ==> (r matches Ok(recs) && {
            let qs = read_outputs(items@);
            &&& recs.address_spec() == address@
            &&& recs.utxos_spec().len() == qs.len()
            &&& forall|i: int| 0 <= i < qs.len() ==> utxo_from_query(address@, qs[i], #[trigger] recs.utxos_spec()[i])
        }),
{
    if !success {
        return Err(GatewayError::ServiceFailure);
    }
    let mut recs = AddressUtxoRecords::new(clone_str(address));
    let mut i: usize = 0;
    proof {
        assert(items@.take(0) =~= Seq::<Option<UtxoQueryResult>>::empty());
    }
    while i < items.len()
        invariant
            i <= items@.len(),
            recs.address_spec() == address@,
            recs.utxos_spec().len() == read_outputs(items@.take(i as int)).len(),
            forall|k: int| 0 <= k < recs.utxos_spec().len() ==> utxo_from_query(
                address@,
                read_outputs(items@.take(i as int))[k],
                #[trigger] recs.utxos_spec()[k],
            ),
        decreases items@.len() - i,
    {
        proof {
            assert(items@.take(i as int + 1).drop_last() =~= items@.take(i as int));
            assert(items@.take(i as int + 1).last() == items@[i as int]);
        }
        match &items[i] {
            Some(q) => {
                let u = UtxoRecord::new(
                    clone_str(address),
                    q.txid.as_str(),
                    q.vout,
                    q.value,
                    q.status.block_height,
                    q.status.block_hash.as_str(),
                    q.status.block_time,
                );
                recs.push(u);
            },
            None => {},
        }
        i = i + 1;
    }
    proof {
        assert(items@.take(i as int) =~= items@);
    }
    Ok(recs)
}

/// A confirmation target as the service writes it: a `u16`, or 0 when the
/// text is not one.
pub open spec fn target_of(key: Seq<char>) -> u16 {
    match parse_u64_dec(key) {
        Some(v) => if v <= u16::MAX {
            v as u16
        } else {
            0
        },
        None => 0,
    }
}

fn parse_target(key: &str) -> (r: u16)
    ensures
        r == target_of(key@),
{
    match parse_u64_decimal(key) {
        Some(v) => if v <= u16::MAX as u64 {
            v as u16
        } else {
            0
        },
        None => 0,
    }
}

/// The rates as the service lists them, keyed by confirmation target in
/// text, inserted in order (a later rate for the same target wins); the
/// rates are the bits of their floating-point values.
pub open spec fn rates_from(list: Seq<(String, u64)>) -> Map<u16, u64>
    decreases list.len(),
{
    if list.len() == 0 {
        Map::empty()
    } else {
        rates_from(list.drop_last()).insert(target_of(list.last().0@), list.last().1)
    }
}

/// The fee rates by confirmation target, from the service's answer; a
/// failed answer gives no rates.
pub fn fee_rates_from_answer(success: bool, list: &Vec<(String, u64)>) -> (r: HashMap<u16, u64>)
    ensures
        !success ==> r@ == Map::<u16, u64>::empty(),
        success ==> r@ == rates_from(list@),
{
    broadcast use vstd::std_specs::hash::group_hash_axioms;

    let mut m: HashMap<u16, u64> = HashMap::new();
    if !success {
        return m;
    }
    let mut i: usize = 0;
    proof {
        assert(list@.take(0) =~= Seq::<(String, u64)>::empty());
        assert(m@ =~= rates_from(list@.take(0)));
    }
    while i < list.len()
        invariant
            i <= list@.len(),
            m@ == rates_from(list@.take(i as int)),
        decreases list@.len() - i,
    {
        let k = parse_target(list[i].0.as_str());
        m.insert(k, list[i].1);
        proof {
            assert(list@.take(i as int + 1).drop_last() =~= list@.take(i as int));
            assert(list@.take(i as int + 1).last() == list@[i as int]);
        }
        i = i + 1;
    }
    proof {
        assert(list@.take(i as int) =~= list@);
    }
    m
}

/// The outcome of broadcasting a transaction: a successful answer is the
/// accepted transaction's id, a failed one the rejection message.
pub fn broadcast_outcome(success: bool, body: String) -> (r: TxSubmissionResult)
    ensures
        success ==> r == TxSubmissionResult::Accepted(body),
        !success ==> r == TxSubmissionResult::Rejected(body),
{
    if success {
        TxSubmissionResult::Accepted(body)
    } else {
        TxSubmissionResult::Rejected(body)
    }
}

} // verus!
