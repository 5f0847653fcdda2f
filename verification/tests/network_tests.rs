use wallet_gateway::abi::{encode_balance_of, encode_transfer, erc20_transfer_data, AbiFunction, AbiParam, ContractAbi};
use wallet_gateway::asset::{AssetType, CkAmount};
use wallet_gateway::btc::{
    broadcast_endpoint, broadcast_outcome, fee_estimates_endpoint, fee_rates_from_answer, utxo_endpoint,
    utxo_records_from_answer, UtxoQueryResult, UtxoStatus,
};
use wallet_gateway::error::GatewayError;
use wallet_gateway::etherscan::{
    append_query, check_tx_receipt_status, received_payment_query, filter_incoming_successful, payment_query_pairs, receipt_confirmed,
    receipt_status_url, PaymentQueryResult, QueryPair,
};
use wallet_gateway::rpc::{
    balance_query, classify_response, construct_gas_estimation_params, BalanceQuery, quantity_of, submission_outcome, InfuraJsonRpcErrorResponse,
    InfuraJsonRpcSuccessResponse, InfuraRpcError, InfuraRpcRequest, RpcErrorInfo, TxSubmissionResult, ESTIMATION_GAS,
};

fn s(x: &str) -> String {
    x.to_string()
}

fn ok_answer(result: &str) -> InfuraJsonRpcSuccessResponse {
    InfuraJsonRpcSuccessResponse::new(s("2.0"), 1, s(result))
}

fn refusal(message: &str) -> InfuraJsonRpcErrorResponse {
    InfuraJsonRpcErrorResponse::new(s("2.0"), 1, RpcErrorInfo::new(-32000, s(message)))
}

#[test]
fn node_answers_are_classified() {
    match classify_response(503, Some(ok_answer("0x1")), None, s("")) {
        Err(InfuraRpcError::ConnectionFailure(503)) => {},
        _ => panic!("a failed status is a connection failure"),
    }
    match classify_response(200, Some(ok_answer("0x1")), Some(refusal("no")), s("")) {
        Ok(a) => assert_eq!(a.result(), "0x1"),
        _ => panic!("a result wins"),
    }
    match classify_response(200, None, Some(refusal("nonce too low")), s("body")) {
        Err(InfuraRpcError::RejectedByNetwork(m)) => assert_eq!(m, "nonce too low"),
        _ => panic!("a refusal"),
    }
    match classify_response(200, None, None, s("garbled")) {
        Err(InfuraRpcError::Unknown(b)) => assert_eq!(b, "garbled"),
        _ => panic!("unknown"),
    }
}

#[test]
fn quantities_in_answers_are_read() {
    assert_eq!(quantity_of(&ok_answer("0x3b9aca00")), Ok(1_000_000_000));
    assert_eq!(quantity_of(&ok_answer("12")), Err(GatewayError::MissingHexPrefix));
    assert_eq!(quantity_of(&ok_answer("0xg")), Err(GatewayError::InvalidNumber));
}

#[test]
fn submissions_are_accepted_rejected_or_failed() {
    match submission_outcome(Ok(ok_answer("0xtxhash"))) {
        Ok(TxSubmissionResult::Accepted(h)) => assert_eq!(h, "0xtxhash"),
        _ => panic!("accepted"),
    }
    match submission_outcome(Err(InfuraRpcError::RejectedByNetwork(s("underpriced")))) {
        Ok(TxSubmissionResult::Rejected(m)) => assert_eq!(m, "underpriced"),
        _ => panic!("rejected"),
    }
    assert!(matches!(submission_outcome(Err(InfuraRpcError::ConnectionFailure(500))), Err(InfuraRpcError::ConnectionFailure(500))));
    assert!(matches!(submission_outcome(Err(InfuraRpcError::Unknown(s("?")))), Err(InfuraRpcError::Unknown(_))));
}

#[test]
fn requests_are_json_rpc_two() {
    let r = InfuraRpcRequest::new(s("eth_gasPrice"), Vec::<String>::new());
    assert_eq!(r.jsonrpc, "2.0");
    assert_eq!(r.method, "eth_gasPrice");
    assert_eq!(r.id, 1);
    assert!(r.params.is_empty());
}

fn erc20_abi() -> ContractAbi {
    ContractAbi {
        functions: vec![
            AbiFunction { name: s("approve"), inputs: vec![AbiParam::Address, AbiParam::Uint(256)] },
            AbiFunction { name: s("balanceOf"), inputs: vec![AbiParam::Address] },
            AbiFunction { name: s("transfer"), inputs: vec![AbiParam::Address, AbiParam::Uint(256)] },
        ],
    }
}

#[test]
fn gas_estimates_call_the_token_contract_for_tokens() {
    let from = [1u8; 20];
    let to = [2u8; 20];
    let contract = [3u8; 20];
    let abi = Some(erc20_abi());
    let token = construct_gas_estimation_params(from, to, CkAmount::new(500, AssetType::USDT), &abi, Some(contract))
        .unwrap_or_else(|_| panic!("token"));
    assert_eq!(token.to, contract);
    assert_eq!(token.value, 0);
    assert_eq!(token.gas, ESTIMATION_GAS);
    assert_eq!(token.gas_price, 0);
    assert_eq!(token.data, erc20_transfer_data(to, 500));
    let native = construct_gas_estimation_params(from, to, CkAmount::new(7, AssetType::ETH), &abi, None)
        .unwrap_or_else(|_| panic!("native"));
    assert_eq!(native.to, to);
    assert_eq!(native.value, 7);
    assert!(native.data.is_empty());
    assert_eq!(
        construct_gas_estimation_params(from, to, CkAmount::new(7, AssetType::USDC), &abi, None).err(),
        Some(GatewayError::MissingContractAddress)
    );
    assert_eq!(
        construct_gas_estimation_params(from, to, CkAmount::new(7, AssetType::BTC), &abi, None).err(),
        Some(GatewayError::UnsupportedAssetType)
    );
}

#[test]
fn gas_estimates_need_the_token_abi() {
    let (from, to, contract) = ([1u8; 20], [2u8; 20], [3u8; 20]);
    assert_eq!(
        construct_gas_estimation_params(from, to, CkAmount::new(7, AssetType::ETH), &None, None).err(),
        Some(GatewayError::MissingContractAbi)
    );
    let no_transfer = Some(ContractAbi { functions: vec![AbiFunction { name: s("balanceOf"), inputs: vec![AbiParam::Address] }] });
    assert_eq!(
        construct_gas_estimation_params(from, to, CkAmount::new(7, AssetType::USDT), &no_transfer, Some(contract)).err(),
        Some(GatewayError::MissingAbiFunction)
    );
    let odd = Some(ContractAbi { functions: vec![AbiFunction { name: s("transfer"), inputs: vec![AbiParam::Uint(256)] }] });
    assert_eq!(
        construct_gas_estimation_params(from, to, CkAmount::new(7, AssetType::USDT), &odd, Some(contract)).err(),
        Some(GatewayError::InvalidAbiInput)
    );
}

#[test]
fn token_abis_encode_like_ethabi() {
    let json = r#"[
        {"type":"function","name":"transfer","inputs":[{"name":"to","type":"address"},{"name":"value","type":"uint256"}],"outputs":[{"name":"","type":"bool"}],"stateMutability":"nonpayable"},
        {"type":"function","name":"balanceOf","inputs":[{"name":"owner","type":"address"}],"outputs":[{"name":"","type":"uint256"}],"stateMutability":"view"}
    ]"#;
    let contract = ethabi::Contract::load(json.as_bytes()).unwrap();
    let to = [2u8; 20];
    let expected = contract
        .function("transfer")
        .unwrap()
        .encode_input(&[ethabi::Token::Address(ethabi::Address::from(to)), ethabi::Token::Uint(ethabi::Uint::from(500u64))])
        .unwrap();
    assert_eq!(encode_transfer(&erc20_abi(), to, 500), Ok(expected));
    let expected = contract
        .function("balanceOf")
        .unwrap()
        .encode_input(&[ethabi::Token::Address(ethabi::Address::from(to))])
        .unwrap();
    assert_eq!(encode_balance_of(&erc20_abi(), to), Ok(expected));
}

#[test]
fn bitcoin_service_addresses() {
    assert_eq!(utxo_endpoint("https://esplora", "bc1q"), "https://esplora/address/bc1q/utxo");
    assert_eq!(fee_estimates_endpoint("https://esplora"), "https://esplora/fee-estimates");
    assert_eq!(broadcast_endpoint("https://esplora"), "https://esplora/tx");
}

#[test]
fn utxo_answers_become_records() {
    let items = vec![
        Some(UtxoQueryResult { txid: s("t1"), vout: 0, value: 10, status: UtxoStatus { block_height: 800, block_hash: s("h"), block_time: 9 } }),
        None,
        Some(UtxoQueryResult { txid: s("t2"), vout: 3, value: 20, status: UtxoStatus { block_height: 801, block_hash: s("h2"), block_time: 10 } }),
    ];
    let recs = utxo_records_from_answer(&s("bc1q"), true, &items).unwrap_or_else(|_| panic!("success"));
    assert_eq!(recs.address(), "bc1q");
    assert_eq!(recs.utxos().len(), 2);
    assert_eq!(recs.utxos()[1].txid, "t2");
    assert_eq!(recs.utxos()[1].vout, 3);
    assert_eq!(recs.utxos()[1].block_height, 801);
    assert_eq!(recs.total_balance(), 30);
    assert_eq!(utxo_records_from_answer(&s("bc1q"), false, &items).err(), Some(GatewayError::ServiceFailure));
}

#[test]
fn fee_rates_are_keyed_by_target() {
    let rates = fee_rates_from_answer(true, &vec![(s("1"), 30), (s("6"), 12), (s("6"), 11), (s("x"), 2)]);
    assert_eq!(rates.get(&1), Some(&30));
    assert_eq!(rates.get(&6), Some(&11));
    assert_eq!(rates.get(&0), Some(&2));
    assert_eq!(rates.len(), 3);
    assert!(fee_rates_from_answer(false, &vec![(s("1"), 30)]).is_empty());
}

#[test]
fn broadcasts_are_accepted_with_their_txid() {
    assert!(matches!(broadcast_outcome(true, s("txid")), TxSubmissionResult::Accepted(t) if t == "txid"));
    assert!(matches!(broadcast_outcome(false, s("bad")), TxSubmissionResult::Rejected(m) if m == "bad"));
}

fn pairs_of(ps: Vec<wallet_gateway::etherscan::QueryPair>) -> Vec<(String, String)> {
    ps.into_iter().map(|p| (p.key, p.value)).collect()
}

#[test]
fn payment_queries_for_coins_and_tokens() {
    let coin = pairs_of(payment_query_pairs("KEY", "0xme", AssetType::ETH, None, 42, false).unwrap_or_else(|_| panic!("coin")));
    assert_eq!(
        coin,
        vec![
            (s("module"), s("account")),
            (s("action"), s("txlist")),
            (s("address"), s("0xme")),
            (s("startblock"), s("42")),
            (s("endblock"), s("99999999")),
            (s("page"), s("1")),
            (s("offset"), s("100")),
            (s("sort"), s("desc")),
            (s("apikey"), s("KEY")),
        ]
    );
    let internal = pairs_of(payment_query_pairs("KEY", "0xme", AssetType::ETH, None, 0, true).unwrap_or_else(|_| panic!("coin")));
    assert_eq!(internal[1], (s("action"), s("txlistinternal")));
    let mut contract = [0u8; 20];
    contract[19] = 0xab;
    let token = pairs_of(payment_query_pairs("KEY", "0xme", AssetType::USDT, Some(contract), 7, false).unwrap_or_else(|_| panic!("token")));
    assert_eq!(token[1], (s("action"), s("tokentx")));
    assert_eq!(token[4], (s("endblock"), s("999999999")));
    assert_eq!(token[8], (s("contractaddress"), s("0x00000000000000000000000000000000000000ab")));
    assert_eq!(token.len(), 10);
    assert_eq!(
        payment_query_pairs("KEY", "0xme", AssetType::USDC, None, 7, false).err(),
        Some(GatewayError::MissingContractAddress)
    );
}

#[test]
fn query_pairs_are_appended_to_the_url() {
    let ps = payment_query_pairs("K", "0xme", AssetType::BNB, None, 3, false).unwrap_or_else(|_| panic!("coin"));
    let url = append_query("https://api.etherscan.io/api", &ps).unwrap_or_else(|_| panic!("url"));
    assert_eq!(
        url,
        "https://api.etherscan.io/api?module=account&action=txlist&address=0xme&startblock=3&endblock=99999999&page=1&offset=100&sort=desc&apikey=K"
    );
}

fn qp(k: &str, v: &str) -> QueryPair {
    QueryPair { key: s(k), value: s(v) }
}

#[test]
fn query_pairs_are_form_encoded_like_the_url_crate() {
    let pairs = vec![qp("a b", "x&y=z"), qp("k*-._", "é/+%"), qp("", "")];
    for base in [
        "https://h.example/api",
        "https://h.example/api?",
        "https://h.example/api?x=1",
        "https://h.example/api#frag?no",
        "https://h.example/api?x=1#f",
    ] {
        let mut expected = url::Url::parse(base).unwrap();
        for p in pairs.iter() {
            expected.query_pairs_mut().append_pair(&p.key, &p.value);
        }
        assert_eq!(append_query(base, &pairs), Ok(s(expected.as_str())));
    }
    assert_eq!(append_query("https://h.example/api?x=1#f", &vec![qp("a b", "c+d")]), Ok(s("https://h.example/api?x=1&a+b=c%2Bd#f")));
    assert_eq!(append_query("https://h.example/api", &vec![]), Ok(s("https://h.example/api")));
    assert_eq!(append_query("not a url", &vec![qp("a", "b")]), Err(GatewayError::InvalidUrl));
}

fn tx(hash: &str, to: &str, is_error: Option<&str>) -> PaymentQueryResult {
    PaymentQueryResult {
        hash: s(hash),
        from: s("0xpayer"),
        to: s(to),
        value: s("1"),
        time_stamp: s("1"),
        block_number: s("1"),
        token_symbol: None,
        is_error: is_error.map(s),
    }
}

fn hashes(ts: &[PaymentQueryResult]) -> Vec<String> {
    ts.iter().map(|t| t.hash.clone()).collect()
}

#[test]
fn only_successful_incoming_transactions_count() {
    let txs = vec![tx("a", "0xme", Some("0")), tx("b", "0xother", None), tx("c", "0xme", Some("1")), tx("d", "0xme", None)];
    assert_eq!(hashes(&filter_incoming_successful(&txs, &s("0xme"))), vec![s("a"), s("d")]);
}

#[test]
fn receipts_confirm_with_status_one() {
    assert!(receipt_confirmed(&Some(s("1"))));
    assert!(!receipt_confirmed(&Some(s("0"))));
    assert!(!receipt_confirmed(&None));
    let txs = vec![tx("a", "0xme", None), tx("b", "0xme", None), tx("c", "0xme", None)];
    let kept = check_tx_receipt_status(&txs, &vec![Some(s("1")), None, Some(s("1"))]);
    assert_eq!(hashes(&kept), vec![s("a"), s("c")]);
    assert_eq!(
        receipt_status_url("https://api", "0xh", "K"),
        "https://api?module=transaction&action=gettxreceiptstatus&txhash=0xh&apikey=K"
    );
}

#[test]
fn balances_are_read_by_token_call_or_native_balance() {
    assert_eq!(balance_query(AssetType::USDT), Ok(BalanceQuery::TokenCall));
    assert_eq!(balance_query(AssetType::USDC), Ok(BalanceQuery::TokenCall));
    assert_eq!(balance_query(AssetType::ETH), Ok(BalanceQuery::NativeBalance));
    assert_eq!(balance_query(AssetType::BNB), Ok(BalanceQuery::NativeBalance));
    assert_eq!(balance_query(AssetType::BTC), Err(GatewayError::UnsupportedAssetType));
}

#[test]
fn bitcoin_payments_are_not_looked_up_at_the_explorer() {
    assert_eq!(
        received_payment_query("K", "0xme", AssetType::BTC, None, 1, false).err(),
        Some(GatewayError::UnsupportedAssetType)
    );
    let eth = received_payment_query("K", "0xme", AssetType::ETH, None, 1, true).unwrap_or_else(|_| panic!("evm"));
    assert_eq!(pairs_of(eth)[1], (s("action"), s("txlistinternal")));
}
