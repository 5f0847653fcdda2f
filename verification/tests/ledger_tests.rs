use std::collections::HashMap;
use wallet_gateway::asset::{AssetType, CkAmount, CkNetwork, NetworkType};
use wallet_gateway::balance::{sync_asset_balances, sync_btc_balance, AmountMap, BalanceInfo};
use wallet_gateway::error::GatewayError;
use wallet_gateway::etherscan::PaymentQueryResult;
use wallet_gateway::gas_price::{
    next_btc_fee_rate_info, next_evm_gas_price_info, BtcFeeRateInfo, EthGasPriceInfo, GasPriceInfo, MAX_GAS_PRICE_ENTRIES,
};
use wallet_gateway::payment::{
    apply_received_payments, combine_utxos_to_payment_record, new_utxos_after, parse_query_result_inner,
    query_start_block, sort_by_block_desc, AddressUtxoRecords, CkReversedTransferInfo, PaymentInfo, PaymentRecord,
    UtxoRecord,
};

fn s(x: &str) -> String {
    x.to_string()
}

#[test]
fn the_gas_history_keeps_a_week_and_its_maximum() {
    let mut info = EthGasPriceInfo::new(NetworkType::Mainnet);
    assert_eq!(info.get_current_gas_price(), 0);
    assert_eq!(info.get_max_of_history(), 0);
    info.update(50);
    info.update(200);
    info.update(70);
    assert_eq!(info.get_current_gas_price(), 70);
    assert_eq!(info.get_max_of_history(), 200);
    for _ in 0..(MAX_GAS_PRICE_ENTRIES - 3) {
        info.update(10);
    }
    // a full week: 50, 200, 70 and the rest
    assert_eq!(info.get_max_of_history(), 200);
    info.update(10);
    // 50 left; 200 is now the oldest
    assert_eq!(info.get_max_of_history(), 200);
    info.update(10);
    // 200 left the week: the maximum is recomputed
    assert_eq!(info.get_max_of_history(), 70);
    assert_eq!(info.get_current_gas_price(), 10);
}

#[test]
fn a_new_price_is_at_most_the_maximum() {
    let mut info = EthGasPriceInfo::new(NetworkType::Testnet);
    for p in [5u128, 3, 9, 1] {
        info.update(p);
        assert!(info.get_current_gas_price() <= info.get_max_of_history());
    }
    assert_eq!(info.get_max_of_history(), 9);
}

#[test]
fn gas_records_per_network() {
    assert!(matches!(GasPriceInfo::new(CkNetwork::Eth(NetworkType::Mainnet)), GasPriceInfo::Eth(_)));
    assert!(matches!(GasPriceInfo::new(CkNetwork::Btc(NetworkType::Mainnet)), GasPriceInfo::Btc(_)));
    // a BSC network gets an Eth record
    let bsc = GasPriceInfo::new(CkNetwork::Bsc(NetworkType::Testnet));
    assert!(matches!(bsc, GasPriceInfo::Eth(_)));
    assert_eq!(bsc.network(), CkNetwork::Eth(NetworkType::Testnet));
    let mut btc = GasPriceInfo::new(CkNetwork::Btc(NetworkType::Mainnet));
    assert_eq!(btc.update_evm(5), Err(GatewayError::NotEvmNetwork));
    assert!(btc.take_eth().is_none());
    assert!(btc.take_btc().is_some());
}

#[test]
fn evm_gas_records_are_created_then_updated() {
    let created = next_evm_gas_price_info(None, CkNetwork::Bsc(NetworkType::Mainnet), NetworkType::Mainnet, 7)
        .unwrap_or_else(|_| panic!("evm"));
    let bsc = created.take_bsc().unwrap_or_else(|| panic!("a bsc record"));
    assert_eq!(bsc.get_current_gas_price(), 0);
    let updated = next_evm_gas_price_info(Some(created), CkNetwork::Bsc(NetworkType::Mainnet), NetworkType::Mainnet, 7)
        .unwrap_or_else(|_| panic!("evm"));
    assert_eq!(updated.take_bsc().unwrap_or_else(|| panic!("bsc")).get_current_gas_price(), 7);
    let refused = next_evm_gas_price_info(None, CkNetwork::Btc(NetworkType::Mainnet), NetworkType::Mainnet, 7);
    assert_eq!(refused.err(), Some(GatewayError::NotEvmNetwork));
}

#[test]
fn bitcoin_fee_rates_default_to_six_blocks() {
    let mut info = BtcFeeRateInfo::new(NetworkType::Mainnet);
    assert_eq!(info.get_recommended_fee_rate_in_sat(), 0);
    let mut rates = HashMap::new();
    rates.insert(1u16, 30u64);
    rates.insert(6u16, 12u64);
    info.update(rates.clone());
    assert_eq!(info.get_recommended_fee_rate_in_sat(), 12);
    assert_eq!(info.get_fee_rate(1), 30);
    assert_eq!(info.get_fee_rate(3), 0);
    let stored = next_btc_fee_rate_info(None, NetworkType::Mainnet, rates).unwrap_or_else(|_| panic!("btc"));
    assert_eq!(stored.take_btc().unwrap_or_else(|| panic!("btc")).get_fee_rate(6), 12);
    let wrong = next_btc_fee_rate_info(Some(GasPriceInfo::new(CkNetwork::Eth(NetworkType::Mainnet))), NetworkType::Mainnet, HashMap::new());
    assert_eq!(wrong.err(), Some(GatewayError::NotBtcNetwork));
}

fn record(hash: &str, block: u64, value: u128) -> PaymentRecord {
    PaymentRecord::new(
        CkReversedTransferInfo { from: s("0xfrom"), to_account: s("0xacc"), to_wallet: s("w1"), amount: CkAmount::new(value, AssetType::ETH) },
        1000 + block,
        s(hash),
        block,
    )
}

fn blocks(rs: &[PaymentRecord]) -> Vec<u64> {
    rs.iter().map(|r| r.block_number).collect()
}

#[test]
fn payments_are_kept_newest_block_first() {
    let sorted = sort_by_block_desc(vec![record("a", 5, 1), record("b", 9, 1), record("c", 7, 1), record("d", 9, 1)]);
    assert_eq!(blocks(&sorted), vec![9, 9, 7, 5]);
    let mut info = PaymentInfo::new(s("0xacc"), CkNetwork::Eth(NetworkType::Mainnet));
    info.add_new_records(vec![]);
    assert_eq!(info.last_notified_tx_block_number, 0);
    info.add_new_records(vec![record("a", 3, 1), record("b", 8, 1)]);
    assert_eq!(blocks(&info.payments), vec![8, 3]);
    assert_eq!(info.last_notified_tx_block_number, 8);
    info.add_new_records(vec![record("c", 5, 1)]);
    assert_eq!(blocks(&info.get_records_owned()), vec![8, 5, 3]);
    assert_eq!(info.last_notified_tx_block_number, 8);
}

fn hashes(rs: &[PaymentRecord]) -> Vec<String> {
    rs.iter().map(|r| r.tx_hash.clone()).collect()
}

#[test]
fn payments_of_one_block_keep_new_before_old() {
    let sorted = sort_by_block_desc(vec![record("a", 5, 1), record("b", 9, 1), record("c", 5, 1), record("d", 9, 1)]);
    assert_eq!(hashes(&sorted), vec![s("b"), s("d"), s("a"), s("c")]);
    let mut info = PaymentInfo::new(s("0xacc"), CkNetwork::Eth(NetworkType::Mainnet));
    info.add_new_records(vec![record("old1", 6, 1), record("old2", 4, 1)]);
    info.add_new_records(vec![record("new1", 6, 1), record("new2", 4, 1)]);
    assert_eq!(hashes(&info.payments), vec![s("new1"), s("old1"), s("new2"), s("old2")]);
}

#[test]
fn first_payments_of_an_account_are_not_announced() {
    let net = CkNetwork::Btc(NetworkType::Mainnet);
    assert_eq!(query_start_block(&None), 1);
    let (info, announced) = apply_received_payments(None, s("acc"), net, vec![record("a", 4, 1)]);
    assert!(announced.is_empty());
    assert_eq!(info.last_notified_tx_block_number, 4);
    let stored = Some(info);
    assert_eq!(query_start_block(&stored), 5);
    let (info, announced) = apply_received_payments(stored, s("acc"), net, vec![record("b", 6, 2), record("c", 7, 3)]);
    assert_eq!(blocks(&announced), vec![6, 7]);
    assert_eq!(blocks(&info.payments), vec![7, 6, 4]);
    assert_eq!(info.last_notified_tx_block_number, 7);
}

#[test]
fn payment_amounts_add_up_or_overflow() {
    let mut r = record("a", 1, u128::MAX - 1);
    assert_eq!(r.try_add(1), Ok(()));
    assert_eq!(r.transfer_info.amount.value, u128::MAX);
    assert_eq!(r.try_add(1), Err(GatewayError::AmountOverflow));
    assert_eq!(r.transfer_info.amount.value, u128::MAX);
}

fn listed(value: &str, time: &str, block: &str) -> PaymentQueryResult {
    PaymentQueryResult {
        hash: s("0xhash"),
        from: s("0xpayer"),
        to: s("0xacc"),
        value: s(value),
        time_stamp: s(time),
        block_number: s(block),
        token_symbol: None,
        is_error: Some(s("0")),
    }
}

#[test]
fn listed_transactions_become_payment_records() {
    let r = parse_query_result_inner(&s("0xacc"), &s("w1"), &listed("1500", "1700000000", "19000000"), AssetType::USDT)
        .unwrap_or_else(|_| panic!("numbers"));
    assert_eq!(r.transfer_info.amount, CkAmount::new(1500, AssetType::USDT));
    assert_eq!(r.transfer_info.from, "0xpayer");
    assert_eq!(r.transfer_info.to_wallet, "w1");
    assert_eq!(r.timestamp, 1700000000);
    assert_eq!(r.block_number, 19000000);
    assert_eq!(r.tx_hash, "0xhash");
    let bad = parse_query_result_inner(&s("0xacc"), &s("w1"), &listed("1.5", "1", "1"), AssetType::ETH);
    assert_eq!(bad.err(), Some(GatewayError::InvalidNumber));
    let bad_block = parse_query_result_inner(&s("0xacc"), &s("w1"), &listed("1", "1", "x"), AssetType::ETH);
    assert_eq!(bad_block.err(), Some(GatewayError::InvalidNumber));
}

fn utxo(txid: &str, vout: u64, value: u64, height: u32) -> UtxoRecord {
    UtxoRecord::new(s("bc1q"), txid, vout, value, height, "hash", 500 + height as u64)
}

#[test]
fn utxos_of_one_transaction_make_one_payment() {
    let recs = combine_utxos_to_payment_record(
        &s("acc"),
        &s("w1"),
        vec![utxo("t1", 0, 100, 10), utxo("t2", 0, 5, 11), utxo("t1", 1, 50, 10)],
    )
    .unwrap_or_else(|_| panic!("small values"));
    assert_eq!(recs.len(), 2);
    assert_eq!(recs[0].tx_hash, "t1");
    assert_eq!(recs[0].transfer_info.amount, CkAmount::new(150, AssetType::BTC));
    assert_eq!(recs[0].transfer_info.from, "t1");
    assert_eq!(recs[0].block_number, 10);
    assert_eq!(recs[0].timestamp, 510);
    assert_eq!(recs[1].tx_hash, "t2");
    assert_eq!(recs[1].transfer_info.amount.value, 5);
    assert!(combine_utxos_to_payment_record(&s("acc"), &s("w1"), vec![]).unwrap_or_else(|_| panic!("empty")).is_empty());
}

#[test]
fn only_utxos_after_the_notified_block_are_new() {
    let mut recs = AddressUtxoRecords::new(s("bc1q"));
    recs.push(utxo("a", 0, 1, 5));
    recs.push(utxo("b", 0, 2, 6));
    recs.push(utxo("c", 0, 3, 7));
    assert_eq!(recs.total_balance(), 6);
    let fresh: Vec<String> = new_utxos_after(&recs, 5).into_iter().map(|u| u.txid).collect();
    assert_eq!(fresh, vec![s("b"), s("c")]);
    assert!(new_utxos_after(&recs, 7).is_empty());
}

#[test]
fn available_balance_is_balance_less_what_is_on_hold() {
    let mut b = BalanceInfo::new(s("0xacc"), vec![AssetType::ETH, AssetType::USDT]);
    assert_eq!(b.get_raw_amount_for_asset(&AssetType::ETH), Ok(CkAmount::new(0, AssetType::ETH)));
    assert_eq!(b.get_raw_amount_for_asset(&AssetType::BTC), Err(GatewayError::AssetNotFound));
    b.add_balance(AssetType::ETH, CkAmount::new(100, AssetType::ETH));
    b.add_balance(AssetType::USDT, CkAmount::new(40, AssetType::USDT));
    let mut onhold = AmountMap::new();
    onhold.insert(AssetType::ETH, CkAmount::new(30, AssetType::ETH));
    let avail = b.get_available_balances(&onhold).unwrap_or_else(|_| panic!("enough"));
    assert_eq!(avail.get_raw_amount_for_asset(&AssetType::ETH), Ok(CkAmount::new(70, AssetType::ETH)));
    assert_eq!(avail.get_raw_amount_for_asset(&AssetType::USDT), Ok(CkAmount::new(40, AssetType::USDT)));
    // available plus on hold is the balance
    assert_eq!(70 + 30, 100);
    onhold.insert(AssetType::USDT, CkAmount::new(41, AssetType::USDT));
    assert_eq!(b.get_available_balances(&onhold).err(), Some(GatewayError::InsufficientBalance));
}

#[test]
fn balances_are_replaced_by_what_the_network_reports() {
    let assets = vec![AssetType::ETH, AssetType::USDC];
    let b = sync_asset_balances(None, s("0xacc"), &assets, &vec![Some(9), None]);
    assert_eq!(b.account(), "0xacc");
    assert_eq!(b.get_raw_amount_for_asset(&AssetType::ETH), Ok(CkAmount::new(9, AssetType::ETH)));
    assert_eq!(b.get_raw_amount_for_asset(&AssetType::USDC), Ok(CkAmount::new(0, AssetType::USDC)));
    let again = sync_asset_balances(Some(b), s("other"), &vec![AssetType::USDC], &vec![Some(4)]);
    assert_eq!(again.account(), "0xacc");
    assert_eq!(again.get_raw_amount_for_asset(&AssetType::ETH), Ok(CkAmount::new(9, AssetType::ETH)));
    assert_eq!(again.get_raw_amount_for_asset(&AssetType::USDC), Ok(CkAmount::new(4, AssetType::USDC)));
    let btc = sync_btc_balance(None, s("acc"), &vec![100, 250]);
    assert_eq!(btc.get_raw_amount_for_asset(&AssetType::BTC), Ok(CkAmount::new(350, AssetType::BTC)));
    let amounts = btc.take_amounts();
    assert_eq!(amounts, vec![CkAmount::new(350, AssetType::BTC)]);
}
