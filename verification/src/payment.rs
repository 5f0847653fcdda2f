//! Payments received by wallets: the records kept per account, and how
//! explorer answers and Bitcoin UTXOs become records.
use vstd::prelude::*;
use crate::asset::{AssetType, CkAmount, CkNetwork};
use crate::error::GatewayError;
use crate::etherscan::PaymentQueryResult;
use crate::hex::{parse_u128_dec, parse_u128_decimal, parse_u64_dec, parse_u64_decimal};
use crate::model::{clone_str, AccountId, WalletID};

verus! {

/// A payment into a wallet: who paid (an address; for Bitcoin, the paying
/// transaction), which account and wallet received it, and how much.
pub struct CkReversedTransferInfo {
    pub from: String,
    pub to_account: AccountId,
    pub to_wallet: WalletID,
    pub amount: CkAmount,
}

/// One received payment.
pub struct PaymentRecord {
    pub transfer_info: CkReversedTransferInfo,
    pub timestamp: u64,
    pub tx_hash: String,
    pub block_number: u64,
}

impl PaymentRecord {
    pub fn new(transfer_info: CkReversedTransferInfo, timestamp: u64, tx_hash: String, block_number: u64) -> (r: Self)
        ensures
            r.transfer_info == transfer_info,
            r.timestamp == timestamp,
            r.tx_hash == tx_hash,
            r.block_number == block_number,
    {
        PaymentRecord { transfer_info, timestamp, tx_hash, block_number }
    }

    /// Adds `value` to the amount; fails, changing nothing, on overflow.
    pub fn try_add(&mut self, value: u128) -> (r: Result<(), GatewayError>)
        ensures
            old(self).transfer_info.amount.value + value > u128::MAX ==> r == Err::<(), GatewayError>(
                GatewayError::AmountOverflow,
            ) && *final(self) == *old(self),
            old(self).transfer_info.amount.value + value <= u128::MAX ==> r is Ok
                && final(self).transfer_info.amount.value == old(self).transfer_info.amount.value + value
                && final(self).transfer_info.amount.asset_type == old(self).transfer_info.amount.asset_type
                && final(self).transfer_info.from == old(self).transfer_info.from
                && final(self).transfer_info.to_account == old(self).transfer_info.to_account
                && final(self).transfer_info.to_wallet == old(self).transfer_info.to_wallet
                && final(self).timestamp == old(self).timestamp && final(self).tx_hash == old(self).tx_hash
                && final(self).block_number == old(self).block_number,
    {
        match self.transfer_info.amount.value.checked_add(value) {
            Some(v) => {
                self.transfer_info.amount.value = v;
                Ok(())
            },
            None => Err(GatewayError::AmountOverflow),
        }
    }

    pub fn duplicate(&self) -> (r: Self)
        ensures
            r == *self,
    {
        PaymentRecord {
            transfer_info: CkReversedTransferInfo {
                from: clone_str(&self.transfer_info.from),
                to_account: clone_str(&self.transfer_info.to_account),
                to_wallet: clone_str(&self.transfer_info.to_wallet),
                amount: self.transfer_info.amount,
            },
            timestamp: self.timestamp,
            tx_hash: clone_str(&self.tx_hash),
            block_number: self.block_number,
        }
    }
}

/// Newest block first.
pub open spec fn sorted_by_block_desc(s: Seq<PaymentRecord>) -> bool {
    forall|i: int, j: int| 0 <= i < j < s.len() ==> s[i].block_number >= s[j].block_number
}

/// The records of block `b` in `s`, in their order in `s`.
pub open spec fn block_records(s: Seq<PaymentRecord>, b: u64) -> Seq<PaymentRecord>
    decreases s.len(),
{
    if s.len() == 0 {
        Seq::empty()
    } else {
        let rest = block_records(s.drop_last(), b);
        if s.last().block_number == b {
            rest.push(s.last())
        } else {
            rest
        }
    }
}

/// Inserting a record of another block leaves the records of block `b`
/// as they were.
proof fn lemma_block_records_insert_other(s: Seq<PaymentRecord>, p: int, x: PaymentRecord, b: u64)
    requires
        0 <= p <= s.len(),
        x.block_number != b,
    ensures
        block_records(s.insert(p, x), b) == block_records(s, b),
    decreases s.len(),
{
    if p == s.len() {
        assert(s.insert(p, x).drop_last() =~= s);
    } else {
        assert(s.insert(p, x).drop_last() =~= s.drop_last().insert(p, x));
        assert(s.insert(p, x).last() == s.last());
        lemma_block_records_insert_other(s.drop_last(), p, x, b);
    }
}

/// Inserting a record of block `b` after every other record of that block
/// puts it last among them.
proof fn lemma_block_records_insert_last(s: Seq<PaymentRecord>, p: int, x: PaymentRecord, b: u64)
    requires
        0 <= p <= s.len(),
        x.block_number == b,
        forall|k: int| p <= k < s.len() ==> s[k].block_number != b,
    ensures
        block_records(s.insert(p, x), b) == block_records(s, b).push(x),
    decreases s.len(),
{
    if p == s.len() {
        assert(s.insert(p, x).drop_last() =~= s);
    } else {
        assert(s.insert(p, x).drop_last() =~= s.drop_last().insert(p, x));
        assert(s.insert(p, x).last() == s.last());
        assert(s.last().block_number != b);
        lemma_block_records_insert_last(s.drop_last(), p, x, b);
    }
}

/// `records` ordered newest block first, records of the same block in
/// their order in `records`.
pub fn sort_by_block_desc(records: Vec<PaymentRecord>) -> (r: Vec<PaymentRecord>)
    ensures
        sorted_by_block_desc(r@),
        r@.to_multiset() == records@.to_multiset(),
        forall|b: u64| #[trigger] block_records(r@, b) == block_records(records@, b),
{
    broadcast use vstd::seq_lib::group_to_multiset_ensures;

    let ghost input = records@;
    let mut out: Vec<PaymentRecord> = Vec::new();
    let mut rest = records;
    let n = rest.len();
    let mut i: usize = 0;
    proof {
        assert(rest@ =~= input.skip(0));
        assert(input.take(0) =~= Seq::<PaymentRecord>::empty());
    }
    while i < n
        invariant
            i <= n,
            n == input.len(),
            rest@ == input.skip(i as int),
            sorted_by_block_desc(out@),
            out@.to_multiset() == input.take(i as int).to_multiset(),
            forall|b: u64| #[trigger] block_records(out@, b) == block_records(input.take(i as int), b),
        decreases n - i,
    {
        let x = rest.remove(0);
        proof {
            assert(x == input[i as int]);
            assert(rest@ =~= input.skip(i as int + 1));
        }
        let mut p: usize = 0;
        while p < out.len() && out[p].block_number >= x.block_number
            invariant
                p <= out@.len(),
                forall|k: int| 0 <= k < p ==> out@[k].block_number >= x.block_number,
            decreases out@.len() - p,
        {
            p = p + 1;
        }
        let ghost before = out@;
        out.insert(p, x);
        proof {
            assert(out@ == before.insert(p as int, x));
            vstd::seq_lib::to_multiset_insert(before, p as int, x);
            assert(input.take(i as int + 1) =~= input.take(i as int).push(x));
            vstd::seq_lib::to_multiset_build(input.take(i as int), x);
            assert(input.take(i as int + 1).drop_last() =~= input.take(i as int));
            assert(input.take(i as int + 1).last() == x);
            assert forall|b: u64| #[trigger] block_records(out@, b) == block_records(input.take(i as int + 1), b) by {
                if x.block_number == b {
                    assert forall|k: int| p <= k < before.len() implies before[k].block_number != b by {
                        assert(before[p as int].block_number < x.block_number);
                        assert(before[p as int].block_number >= before[k].block_number || k == p);
                    }
                    lemma_block_records_insert_last(before, p as int, x, b);
                } else {
                    lemma_block_records_insert_other(before, p as int, x, b);
                }
            }
            assert forall|a: int, b: int| 0 <= a < b < out@.len() implies out@[a].block_number >= out@[b].block_number by {
                if p < before.len() {
                    assert(before[p as int].block_number < x.block_number);
                }
                if a < p && b == p {
                } else if a < p && b > p {
                    assert(out@[b] == before[b - 1]);
                } else if a == p && b > p {
                    assert(out@[b] == before[b - 1]);
                    assert(before[p as int].block_number >= before[b - 1].block_number || b - 1 == p);
                } else if a > p {
                    assert(out@[a] == before[a - 1]);
                    assert(out@[b] == before[b - 1]);
                }
            }
        }
        i = i + 1;
    }
    proof {
        assert(input.take(i as int) =~= input);
    }
    out
}

/// The payments received by one account on one network, newest first,
/// and the block of the newest one that was notified.
pub struct PaymentInfo {
    pub account: AccountId,
    pub ck_network: CkNetwork,
    pub payments: Vec<PaymentRecord>,
    pub last_notified_tx_block_number: u64,
}

impl PaymentInfo {
    pub fn new(account: AccountId, ck_network: CkNetwork) -> (r: Self)
        ensures
            r.account == account,
            r.ck_network == ck_network,
            r.payments@.len() == 0,
            r.last_notified_tx_block_number == 0,
    {
        PaymentInfo { account, ck_network, payments: Vec::new(), last_notified_tx_block_number: 0 }
    }

    /// Adds newly received records: all records are ordered newest block
    /// first (new before old within a block), and the newest block becomes
    /// the last notified one. No records: nothing changes.
    pub fn add_new_records(&mut self, records: Vec<PaymentRecord>)
        ensures
            records@.len() == 0 ==> *final(self) == *old(self),
            records@.len() > 0 ==> {
                &&& sorted_by_block_desc(final(self).payments@)
                &&& final(self).payments@.to_multiset() == (records@ + old(self).payments@).to_multiset()
                &&& forall|b: u64| #[trigger] block_records(final(self).payments@, b) == block_records(
                    records@ + old(self).payments@,
                    b,
                )
                &&& final(self).last_notified_tx_block_number == final(self).payments@[0].block_number
                &&& final(self).account == old(self).account
                &&& final(self).ck_network == old(self).ck_network
            },
    {
        if records.len() == 0 {
            return;
        }
        let mut all = records;
        let mut old_payments: Vec<PaymentRecord> = Vec::new();
        std::mem::swap(&mut old_payments, &mut self.payments);
        all.append(&mut old_payments);
        let ghost all_v = all@;
        let sorted = sort_by_block_desc(all);
        proof {
            vstd::seq_lib::to_multiset_len(all_v);
            vstd::seq_lib::to_multiset_len(sorted@);
            assert(sorted@.len() > 0);
        }
        self.last_notified_tx_block_number = sorted[0].block_number;
        self.payments = sorted;
    }

    pub fn get_records_owned(&self) -> (r: Vec<PaymentRecord>)
        ensures
            r@ == self.payments@,
    {
        let mut out: Vec<PaymentRecord> = Vec::new();
        let mut i: usize = 0;
        while i < self.payments.len()
            invariant
                i <= self.payments@.len(),
                out@ == self.payments@.take(i as int),
            decreases self.payments@.len() - i,
        {
            out.push(self.payments[i].duplicate());
            proof {
                assert(self.payments@.take(i as int + 1) =~= self.payments@.take(i as int).push(self.payments@[i as int]));
            }
            i = i + 1;
        }
        proof {
            assert(self.payments@.take(i as int) =~= self.payments@);
        }
        out
    }
}

/// The block the next query for new payments starts at: the one after the
/// newest notified block, or block 1 when nothing is stored yet.
pub fn query_start_block(stored: &Option<PaymentInfo>) -> (r: u64)
    requires
        stored matches Some(s) ==> s.last_notified_tx_block_number < u64::MAX,
    ensures
        r == match stored {
            Some(s) => s.last_notified_tx_block_number + 1,
            None => 1,
        },
{
    match stored {
        Some(s) => s.last_notified_tx_block_number + 1,
        None => 1,
    }
}

/// Copies of the records, in order.
fn duplicate_records(records: &Vec<PaymentRecord>) -> (r: Vec<PaymentRecord>)
    ensures
        r@ == records@,
{
    let mut out: Vec<PaymentRecord> = Vec::new();
    let mut i: usize = 0;
    while i < records.len()
        invariant
            i <= records@.len(),
            out@ == records@.take(i as int),
        decreases records@.len() - i,
    {
        out.push(records[i].duplicate());
        proof {
            assert(records@.take(i as int + 1) =~= records@.take(i as int).push(records@[i as int]));
        }
        i = i + 1;
    }
    proof {
        assert(records@.take(i as int) =~= records@);
    }
    out
}

/// The payment record of an account after new payments arrive, with the
/// payments to announce. With a stored record, the new payments join it
/// and each is announced. With none (the first run for the account), a new
/// record holds them and none is announced, so that payments older than
/// the gateway are not.
pub fn apply_received_payments(
    stored: Option<PaymentInfo>,
    account: AccountId,
    ck_network: CkNetwork,
    records: Vec<PaymentRecord>,
) -> (r: (PaymentInfo, Vec<PaymentRecord>))
    ensures
        stored is None ==> {
            &&& r.1@.len() == 0
            &&& r.0.account == account
            &&& r.0.ck_network == ck_network
            &&& records@.len() == 0 ==> r.0.payments@.len() == 0 && r.0.last_notified_tx_block_number == 0
            &&& records@.len() > 0 ==> sorted_by_block_desc(r.0.payments@) && r.0.payments@.to_multiset()
                == records@.to_multiset() && r.0.last_notified_tx_block_number == r.0.payments@[0].block_number
        },
        stored matches Some(s) ==> {
            &&& r.1@ == records@
            &&& records@.len() == 0 ==> r.0 == s
            &&& records@.len() > 0 ==> sorted_by_block_desc(r.0.payments@) && r.0.payments@.to_multiset() == (
            records@ + s.payments@).to_multiset() && r.0.last_notified_tx_block_number == r.0.payments@[0].block_number
                && r.0.account == s.account && r.0.ck_network == s.ck_network
        },
{
    match stored {
        Some(mut info) => {
            let announced = duplicate_records(&records);
            info.add_new_records(records);
            (info, announced)
        },
        None => {
            let mut info = PaymentInfo::new(account, ck_network);
            let ghost rv = records@;
            info.add_new_records(records);
            proof {
                assert(rv + Seq::<PaymentRecord>::empty() =~= rv);
            }
            (info, Vec::new())
        },
    }
}


/// The payment record of a transaction the explorer listed, paid in
/// `asset_type` to `to_account` of `to_wallet`.
pub open spec fn record_from_query(
    to_account: Seq<char>,
    to_wallet: Seq<char>,
    item: PaymentQueryResult,
    asset_type: AssetType,
    rec: PaymentRecord,
) -> bool {
    &&& parse_u128_dec(item.value@) == Some(rec.transfer_info.amount.value)
    &&& rec.transfer_info.amount.asset_type == asset_type
    &&& rec.transfer_info.from@ == item.from@
    &&& rec.transfer_info.to_account@ == to_account
    &&& rec.transfer_info.to_wallet@ == to_wallet
    &&& parse_u64_dec(item.time_stamp@) == Some(rec.timestamp)
    &&& rec.tx_hash@ == item.hash@
    &&& parse_u64_dec(item.block_number@) == Some(rec.block_number)
}

/// Reads a listed transaction as a payment record; fails when its value,
/// time or block is not a number.
pub fn parse_query_result_inner(
    to_account: &AccountId,
    to_wallet: &WalletID,
    payment_result: &PaymentQueryResult,
    asset_type: AssetType,
) -> (r: Result<PaymentRecord, GatewayError>)
    ensures
        r is Ok <==> parse_u128_dec(payment_result.value@) is Some && parse_u64_dec(payment_result.time_stamp@) is Some
            && parse_u64_dec(payment_result.block_number@) is Some,
        r matches Ok(rec) ==> record_from_query(to_account@, to_wallet@, *payment_result, asset_type, rec),
        r matches Err(e) ==> e == GatewayError::InvalidNumber,
{
    let value = match parse_u128_decimal(payment_result.value.as_str()) {
        Some(v) => v,
        None => {
            return Err(GatewayError::InvalidNumber);
        },
    };
    let timestamp = match parse_u64_decimal(payment_result.time_stamp.as_str()) {
        Some(v) => v,
        None => {
            return Err(GatewayError::InvalidNumber);
        },
    };
    let block_number = match parse_u64_decimal(payment_result.block_number.as_str()) {
        Some(v) => v,
        None => {
            return Err(GatewayError::InvalidNumber);
        },
    };
    let transfer_info = CkReversedTransferInfo {
        from: clone_str(&payment_result.from),
        to_account: clone_str(to_account),
        to_wallet: clone_str(to_wallet),
        amount: CkAmount::new(value, asset_type),
    };
    Ok(PaymentRecord::new(transfer_info, timestamp, clone_str(&payment_result.hash), block_number))
}

/// An unspent output received by a Bitcoin address.
pub struct UtxoRecord {
    pub address: String,
    pub txid: String,
    pub vout: u64,
    pub value: u64,
    pub block_height: u32,
    pub block_hash: String,
    pub block_time: u64,
}

impl UtxoRecord {
    pub fn new(
        address: String,
        txid: &str,
        vout: u64,
        value: u64,
        block_height: u32,
        block_hash: &str,
        block_time: u64,
    ) -> (r: Self)
        ensures
            r.address == address,
            r.txid@ == txid@,
            r.vout == vout,
            r.value == value,
            r.block_height == block_height,
            r.block_hash@ == block_hash@,
            r.block_time == block_time,
    {
        UtxoRecord {
            address,
            txid: String::from_str(txid),
            vout,
            value,
            block_height,
            block_hash: String::from_str(block_hash),
            block_time,
        }
    }

    pub fn duplicate(&self) -> (r: Self)
        ensures
            r == *self,
    {
        UtxoRecord {
            address: clone_str(&self.address),
            txid: clone_str(&self.txid),
            vout: self.vout,
            value: self.value,
            block_height: self.block_height,
            block_hash: clone_str(&self.block_hash),
            block_time: self.block_time,
        }
    }
}

/// The sum of the values of the outputs.
pub open spec fn utxo_sum(us: Seq<UtxoRecord>) -> nat
    decreases us.len(),
{
    if us.len() == 0 {
        0
    } else {
        utxo_sum(us.drop_last()) + us.last().value as nat
    }
}

proof fn lemma_utxo_sum_prefix(us: Seq<UtxoRecord>, i: int)
    requires
        0 <= i <= us.len(),
    ensures
        utxo_sum(us.take(i)) <= utxo_sum(us),
    decreases us.len() - i,
{
    if i < us.len() {
        lemma_utxo_sum_prefix(us, i + 1);
        assert(us.take(i + 1).drop_last() =~= us.take(i));
    } else {
        assert(us.take(i) =~= us);
    }
}

/// The unspent outputs of one Bitcoin address.
pub struct AddressUtxoRecords {
    address: String,
    utxos: Vec<UtxoRecord>,
}

impl AddressUtxoRecords {
    pub closed spec fn address_spec(&self) -> Seq<char> {
        self.address@
    }

    pub closed spec fn utxos_spec(&self) -> Seq<UtxoRecord> {
        self.utxos@
    }

    pub fn new(address: String) -> (r: Self)
        ensures
            r.address_spec() == address@,
            r.utxos_spec().len() == 0,
    {
        AddressUtxoRecords { address, utxos: Vec::new() }
    }

    pub fn push(&mut self, utxo: UtxoRecord)
        ensures
            final(self).utxos_spec() == old(self).utxos_spec().push(utxo),
            final(self).address_spec() == old(self).address_spec(),
    {
        self.utxos.push(utxo);
    }

    pub fn address(&self) -> (r: &String)
        ensures
            r@ == self.address_spec(),
    {
        &self.address
    }

    pub fn utxos(&self) -> (r: &Vec<UtxoRecord>)
        ensures
            r@ == self.utxos_spec(),
    {
        &self.utxos
    }

    /// The balance of the address: the sum of its outputs.
    pub fn total_balance(&self) -> (r: u64)
        requires
            utxo_sum(self.utxos_spec()) <= u64::MAX,
        ensures
            r == utxo_sum(self.utxos_spec()),
    {
        let mut total: u64 = 0;
        let mut i: usize = 0;
        proof {
            assert(self.utxos@.take(0) =~= Seq::<UtxoRecord>::empty());
        }
        while i < self.utxos.len()
            invariant
                i <= self.utxos@.len(),
                utxo_sum(self.utxos@) <= u64::MAX,
                total == utxo_sum(self.utxos@.take(i as int)),
            decreases self.utxos@.len() - i,
        {
            proof {
                assert(self.utxos@.take(i as int + 1).drop_last() =~= self.utxos@.take(i as int));
                lemma_utxo_sum_prefix(self.utxos@, i as int + 1);
            }
            total = total + self.utxos[i].value;
            i = i + 1;
        }
        proof {
            assert(self.utxos@.take(i as int) =~= self.utxos@);
        }
        total
    }
}

/// The outputs in blocks after `last_block`, in order.
pub open spec fn utxos_after(us: Seq<UtxoRecord>, last_block: u64) -> Seq<UtxoRecord>
    decreases us.len(),
{
    if us.len() == 0 {
        Seq::empty()
    } else if us.last().block_height as u64 > last_block {
        utxos_after(us.drop_last(), last_block).push(us.last())
    } else {
        utxos_after(us.drop_last(), last_block)
    }
}

/// The outputs received in blocks after `last_notified_tx_block_number`.
pub fn new_utxos_after(records: &AddressUtxoRecords, last_notified_tx_block_number: u64) -> (r: Vec<UtxoRecord>)
    ensures
        r@ == utxos_after(records.utxos_spec(), last_notified_tx_block_number),
{
    let us = records.utxos();
    let mut out: Vec<UtxoRecord> = Vec::new();
    let mut i: usize = 0;
    proof {
        assert(us@.take(0) =~= Seq::<UtxoRecord>::empty());
    }
    while i < us.len()
        invariant
            i <= us@.len(),
            out@ == utxos_after(us@.take(i as int), last_notified_tx_block_number),
        decreases us@.len() - i,
    {
        proof {
            assert(us@.take(i as int + 1).drop_last() =~= us@.take(i as int));
            assert(us@.take(i as int + 1).last() == us@[i as int]);
        }
        if us[i].block_height as u64 > last_notified_tx_block_number {
            out.push(us[i].duplicate());
        }
        i = i + 1;
    }
    proof {
        assert(us@.take(i as int) =~= us@);
    }
    out
}

/// The transactions of the outputs, each once, in order of first
/// appearance.
pub open spec fn txids_in_order(us: Seq<UtxoRecord>) -> Seq<Seq<char>>
    decreases us.len(),
{
    if us.len() == 0 {
        Seq::empty()
    } else {
        let rest = txids_in_order(us.drop_last());
        if rest.contains(us.last().txid@) {
            rest
        } else {
            rest.push(us.last().txid@)
        }
    }
}

/// The sum of the values of the outputs of transaction `txid`.
pub open spec fn tx_value(us: Seq<UtxoRecord>, txid: Seq<char>) -> nat
    decreases us.len(),
{
    if us.len() == 0 {
        0
    } else {
        tx_value(us.drop_last(), txid) + if us.last().txid@ == txid {
            us.last().value as nat
        } else {
            0
        }
    }
}

/// The first output of transaction `txid` (meaningful when there is one).
pub open spec fn first_utxo(us: Seq<UtxoRecord>, txid: Seq<char>) -> UtxoRecord
    decreases us.len(),
{
    if us.len() == 0 {
        arbitrary()
    } else if txids_in_order(us.drop_last()).contains(txid) {
        first_utxo(us.drop_last(), txid)
    } else {
        us.last()
    }
}


proof fn lemma_txids_no_dup(us: Seq<UtxoRecord>)
    ensures
        txids_in_order(us).no_duplicates(),
    decreases us.len(),
{
    if us.len() > 0 {
        lemma_txids_no_dup(us.drop_last());
    }
}

/// What the first `i` outputs name, all outputs name; their values only
/// grow.
proof fn lemma_prefix_grows(us: Seq<UtxoRecord>, i: int, txid: Seq<char>)
    requires
        0 <= i <= us.len(),
    ensures
        txids_in_order(us.take(i)).contains(txid) ==> txids_in_order(us).contains(txid),
        tx_value(us.take(i), txid) <= tx_value(us, txid),
    decreases us.len() - i,
{
    if i < us.len() {
        lemma_prefix_grows(us, i + 1, txid);
        assert(us.take(i + 1).drop_last() =~= us.take(i));
        let a = txids_in_order(us.take(i));
        let b = txids_in_order(us.take(i + 1));
        if a.contains(txid) {
            let k = choose|k: int| 0 <= k < a.len() && a[k] == txid;
            if !a.contains(us.take(i + 1).last().txid@) {
                assert(b[k] == txid);
            }
        }
    } else {
        assert(us.take(i) =~= us);
    }
}

/// One payment record per transaction of the outputs, in order of first
/// appearance: paid in bitcoin from the transaction (its id stands for the
/// payer) to `to_account` of `to_wallet`, for the sum of its outputs, at
/// the time and block of its first output.
pub fn combine_utxos_to_payment_record(
    to_account: &AccountId,
    to_wallet: &WalletID,
    utxo_list: Vec<UtxoRecord>,
) -> (r: Result<Vec<PaymentRecord>, GatewayError>)
    ensures
        r is Ok <==> forall|k: int| 0 <= k < txids_in_order(utxo_list@).len() ==> tx_value(utxo_list@, #[trigger] txids_in_order(utxo_list@)[k]) <= u128::MAX,
        r matches Err(e) ==> e == GatewayError::AmountOverflow,
        r matches Ok(recs) ==> {
            let ids = txids_in_order(utxo_list@);
            &&& recs@.len() == ids.len()
            &&& forall|k: int| 0 <= k < ids.len() ==> {
                let rec = #[trigger] recs@[k];
                let first = first_utxo(utxo_list@, ids[k]);
                &&& rec.tx_hash@ == ids[k]
                &&& rec.transfer_info.from@ == ids[k]
                &&& rec.transfer_info.to_account@ == to_account@
                &&& rec.transfer_info.to_wallet@ == to_wallet@
                &&& rec.transfer_info.amount.asset_type == AssetType::BTC
                &&& rec.transfer_info.amount.value == tx_value(utxo_list@, ids[k])
                &&& rec.timestamp == first.block_time
                &&& rec.block_number == first.block_height as u64
            }
        },
{
    let ghost us = utxo_list@;
    let mut recs: Vec<PaymentRecord> = Vec::new();
    let mut i: usize = 0;
    proof {
        assert(us.take(0) =~= Seq::<UtxoRecord>::empty());
    }
    while i < utxo_list.len()
        invariant
            i <= us.len(),
            us == utxo_list@,
            recs@.len() == txids_in_order(us.take(i as int)).len(),
            forall|k: int| 0 <= k < recs@.len() ==> {
                let id = txids_in_order(us.take(i as int))[k];
                let rec = #[trigger] recs@[k];
                let first = first_utxo(us.take(i as int), id);
                &&& rec.tx_hash@ == id
                &&& rec.transfer_info.from@ == id
                &&& rec.transfer_info.to_account@ == to_account@
                &&& rec.transfer_info.to_wallet@ == to_wallet@
                &&& rec.transfer_info.amount.asset_type == AssetType::BTC
                &&& rec.transfer_info.amount.value == tx_value(us.take(i as int), id)
                &&& rec.timestamp == first.block_time
                &&& rec.block_number == first.block_height as u64
            },
        decreases us.len() - i,
    {
        let u = &utxo_list[i];
        let ghost ids = txids_in_order(us.take(i as int));
        let ghost t1 = us.take(i as int + 1);
        proof {
            assert(t1.drop_last() =~= us.take(i as int));
            assert(t1.last() == *u);
            lemma_txids_no_dup(us.take(i as int));
        }
        let mut pos: Option<usize> = None;
        let mut k: usize = 0;
        while k < recs.len()
            invariant
                k <= recs@.len(),
                recs@.len() == ids.len(),
                forall|j: int| 0 <= j < recs@.len() ==> (#[trigger] recs@[j]).tx_hash@ == ids[j],
                pos is None ==> forall|j: int| 0 <= j < k ==> ids[j] != u.txid@,
                pos matches Some(p) ==> p < recs@.len() && ids[p as int] == u.txid@,
            decreases recs@.len() - k,
        {
            if pos.is_none() && recs[k].tx_hash.eq(&u.txid) {
                pos = Some(k);
            }
            k = k + 1;
        }
        match pos {
            Some(p) => {
                let mut rec = recs[p].duplicate();
                match rec.try_add(u.value as u128) {
                    Ok(()) => {},
                    Err(e) => {
                        proof {
                            lemma_prefix_grows(us, i as int + 1, u.txid@);
                            assert(ids.contains(u.txid@));
                            assert(txids_in_order(t1) == ids);
                            lemma_prefix_grows(us, i as int + 1, u.txid@);
                            let full = txids_in_order(us);
                            assert(full.contains(u.txid@));
                            let j = choose|j: int| 0 <= j < full.len() && full[j] == u.txid@;
                            assert(tx_value(us, full[j]) > u128::MAX);
                        }
                        return Err(e);
                    },
                }
                recs.set(p, rec);
                proof {
                    assert(ids.contains(u.txid@));
                    assert(txids_in_order(t1) == ids);
                    assert forall|j: int| 0 <= j < recs@.len() implies ({
                        let id = txids_in_order(t1)[j];
                        let rec = #[trigger] recs@[j];
                        let first = first_utxo(t1, id);
                        &&& rec.tx_hash@ == id
                        &&& rec.transfer_info.from@ == id
                        &&& rec.transfer_info.to_account@ == to_account@
                        &&& rec.transfer_info.to_wallet@ == to_wallet@
                        &&& rec.transfer_info.amount.asset_type == AssetType::BTC
                        &&& rec.transfer_info.amount.value == tx_value(t1, id)
                        &&& rec.timestamp == first.block_time
                        &&& rec.block_number == first.block_height as u64
                    }) by {
                        assert(ids.contains(ids[j]));
                        if j != p {
                            assert(ids[j] != ids[p as int]);
                        }
                    }
                }
            },
            None => {
                let rec = PaymentRecord::new(
                    CkReversedTransferInfo {
                        from: clone_str(&u.txid),
                        to_account: clone_str(to_account),
                        to_wallet: clone_str(to_wallet),
                        amount: CkAmount::new(u.value as u128, AssetType::BTC),
                    },
                    u.block_time,
                    clone_str(&u.txid),
                    u.block_height as u64,
                );
                recs.push(rec);
                proof {
                    assert(!ids.contains(u.txid@));
                    assert(txids_in_order(t1) == ids.push(u.txid@));
                    assert forall|j: int| 0 <= j < recs@.len() implies ({
                        let id = txids_in_order(t1)[j];
                        let rec = #[trigger] recs@[j];
                        let first = first_utxo(t1, id);
                        &&& rec.tx_hash@ == id
                        &&& rec.transfer_info.from@ == id
                        &&& rec.transfer_info.to_account@ == to_account@
                        &&& rec.transfer_info.to_wallet@ == to_wallet@
                        &&& rec.transfer_info.amount.asset_type == AssetType::BTC
                        &&& rec.transfer_info.amount.value == tx_value(t1, id)
                        &&& rec.timestamp == first.block_time
                        &&& rec.block_number == first.block_height as u64
                    }) by {
                        if j < ids.len() {
                            assert(ids.contains(ids[j]));
                            assert(ids[j] != u.txid@);
                        } else {
                            assert(tx_value(us.take(i as int), u.txid@) == 0) by {
                                lemma_value_absent(us.take(i as int), u.txid@);
                            }
                        }
                    }
                }
            },
        }
        i = i + 1;
    }
    proof {
        assert(us.take(i as int) =~= us);
        assert forall|k: int| 0 <= k < txids_in_order(us).len() implies tx_value(us, #[trigger] txids_in_order(us)[k]) <= u128::MAX by {
            assert(recs@[k].transfer_info.amount.value == tx_value(us, txids_in_order(us)[k]));
        }
    }
    Ok(recs)
}

/// A transaction that no output names has no value.
proof fn lemma_value_absent(us: Seq<UtxoRecord>, txid: Seq<char>)
    requires
        !txids_in_order(us).contains(txid),
    ensures
        tx_value(us, txid) == 0,
    decreases us.len(),
{
    if us.len() > 0 {
        let rest = txids_in_order(us.drop_last());
        if rest.contains(txid) {
            let k = choose|k: int| 0 <= k < rest.len() && rest[k] == txid;
            if !rest.contains(us.last().txid@) {
                assert(rest.push(us.last().txid@)[k] == txid);
            }
        }
        if us.last().txid@ == txid {
            if rest.contains(txid) {
            } else {
                assert(rest.push(us.last().txid@)[rest.len() as int] == txid);
            }
        }
        lemma_value_absent(us.drop_last(), txid);
    }
}

} // verus!
