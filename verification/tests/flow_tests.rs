use wallet_gateway::asset::AssetType;
use wallet_gateway::credential::{CaCredential, Credential, DelegationInfo, PendingTx, TxDelegation, UserCredential};
use wallet_gateway::email::{EmailRequest, EmailTemplateKind, TxBasicInfoEmailRequest};
use wallet_gateway::error::GatewayError;
use wallet_gateway::model::{CkPrivateKey, CkPublicKey};
use wallet_gateway::nickname::NicknameValue;
use wallet_gateway::notify::{
    explorer_tx_link, history_recipients, history_template, nickname_sides, pending_plans, received_recipients,
    subscribed_recipients, tx_query_link,
};
use wallet_gateway::rpc::TxSubmissionResult;
use wallet_gateway::tee::{need_sync, CommittedConfig, OnlineDevice, ServiceInfo, TeeConfig, TeeOnlineStatus, TeeStatusForClient};
use wallet_gateway::tx::{
    delegation_action, expire_pending, overall_status, prepare_tx_for_signing, signing_gas_price, signing_query, DelegationAction, EvmChain,
    EvmTxFields, HistoryTx, SigningTx, TransactionStatus, TxHistoryStatus,
};

fn s(x: &str) -> String {
    x.to_string()
}

fn strs(xs: &[&str]) -> Vec<String> {
    xs.iter().map(|x| x.to_string()).collect()
}

fn sorted(mut v: Vec<String>) -> Vec<String> {
    v.sort();
    v
}

#[test]
fn delegations_expire_strictly_after_their_time() {
    let d = TxDelegation::new(s("tx1"), DelegationInfo::new(60, 5, 21000), 1000);
    assert_eq!(d.expiration_time, 1060);
    assert!(d.signed_payload.is_none());
    assert!(!d.expired(1000));
    assert!(!d.expired(1060));
    assert!(d.expired(1061));
    assert!(d.expired(5000));
    assert_eq!(d.tx(), "tx1");
    let late = TxDelegation::new(s("tx2"), DelegationInfo::new(60, 5, 21000), u64::MAX - 10);
    assert_eq!(late.expiration_time, u64::MAX);
    assert!(!late.expired(u64::MAX));
}

#[test]
fn the_delegation_runner_signs_sends_or_expires() {
    let mut d = TxDelegation::new(s("tx1"), DelegationInfo::new(60, 5, 21000), 1000);
    assert_eq!(delegation_action(&d, 1001), DelegationAction::SignAndSend);
    d.signed_payload = Some(vec![1]);
    assert_eq!(delegation_action(&d, 1060), DelegationAction::Send);
    assert_eq!(delegation_action(&d, 1061), DelegationAction::Expire);
}

#[test]
fn only_delegated_transactions_expire() {
    match expire_pending(PendingTx::DelegationStarted(s("t"))) {
        Ok(PendingTx::DelegationExpired(t)) => assert_eq!(t, "t"),
        _ => panic!("expires"),
    }
    assert_eq!(expire_pending(PendingTx::ReadyForSigning(s("t"))).err(), Some(GatewayError::UnexpectedTxStatus));
    assert_eq!(PendingTx::DelegationStarted(s("t")).status(), "delegationStarted");
    assert_eq!(PendingTx::PendingForApproval(s("t")).status(), "pendingForApproval");
    assert_eq!(PendingTx::ReadyForSigning(s("t")).tx(), "t");
}

#[test]
fn transactions_are_signed_at_the_lower_gas_price() {
    assert_eq!(signing_gas_price(100, 80), 80);
    assert_eq!(signing_gas_price(100, 120), 100);
    assert_eq!(signing_gas_price(100, 100), 100);
}

#[test]
fn transactions_are_prepared_for_signing_on_their_chain() {
    let evm = SigningTx::Evm(EvmTxFields { nonce: None, gas_price: 100 });
    assert_eq!(signing_query(&SigningTx::Btc, None, false, false), Ok(None));
    assert_eq!(signing_query(&evm, None, true, false), Err(GatewayError::EthAccountNotFound));
    assert_eq!(signing_query(&evm, Some(s("0xa")), true, true), Ok(Some((EvmChain::Eth, s("0xa")))));
    assert_eq!(signing_query(&evm, Some(s("0xa")), false, true), Ok(Some((EvmChain::Bsc, s("0xa")))));
    assert_eq!(signing_query(&evm, Some(s("0xa")), false, false), Err(GatewayError::UnsupportedAssetType));
    assert_eq!(prepare_tx_for_signing(evm, 7, 80), SigningTx::Evm(EvmTxFields { nonce: Some(7), gas_price: 80 }));
    assert_eq!(prepare_tx_for_signing(evm, 8, 120), SigningTx::Evm(EvmTxFields { nonce: Some(8), gas_price: 100 }));
    assert_eq!(prepare_tx_for_signing(SigningTx::Btc, 8, 120), SigningTx::Btc);
}

#[test]
fn settled_transactions_record_how_they_settled() {
    let h = HistoryTx::from_submitted(s("t"), Some(vec![1]), TxSubmissionResult::Accepted(s("0xh")), 9);
    assert!(matches!(h.tx_status(), TxHistoryStatus::OnChain(x) if x == "0xh"));
    assert_eq!(h.timestamp(), 9);
    let r = HistoryTx::from_submitted(s("t"), None, TxSubmissionResult::Rejected(s("low fee")), 9);
    assert!(matches!(r.tx_status(), TxHistoryStatus::RejectedByNetwork(m) if m == "low fee"));
    assert!(matches!(HistoryTx::from_approver_rejected(s("t"), 3).tx_status(), TxHistoryStatus::RejectedByApprover));
    let c = HistoryTx::from_operator_recalled(s("t"), 4);
    assert!(matches!(c.tx_status(), TxHistoryStatus::RecalledByOperator));
    assert_eq!(c.tx(), "t");
    assert!(c.signed_payload.is_none());
}

#[test]
fn settled_transactions_pick_their_template() {
    assert_eq!(history_template(&TxHistoryStatus::OnChain(s("h"))), EmailTemplateKind::OnChain);
    assert_eq!(history_template(&TxHistoryStatus::RejectedByNetwork(s("m"))), EmailTemplateKind::RejectedByNetwork);
    assert_eq!(history_template(&TxHistoryStatus::Cached), EmailTemplateKind::RejectedByNetwork);
    assert_eq!(history_template(&TxHistoryStatus::RejectedByApprover), EmailTemplateKind::Declined);
    assert_eq!(history_template(&TxHistoryStatus::RecalledByOperator), EmailTemplateKind::Cancelled);
}

#[test]
fn settled_transactions_tell_approvers_operator_and_viewers_once() {
    let r = history_recipients(&s("op@ck.com"), &strs(&["a@ck.com", "b@ck.com", "a@ck.com"]), &strs(&["v@ck.com", "b@ck.com"]));
    assert_eq!(sorted(r), strs(&["a@ck.com", "b@ck.com", "op@ck.com", "v@ck.com"]));
    let p = received_recipients(&strs(&["a@ck.com", "op@ck.com"]), &strs(&["op@ck.com", "v@ck.com"]));
    assert_eq!(sorted(p), strs(&["a@ck.com", "op@ck.com", "v@ck.com"]));
}

#[test]
fn pending_transactions_ask_the_current_stage() {
    let viewers = strs(&["v@ck.com", "v@ck.com"]);
    let first = pending_plans(&PendingTx::PendingForApproval(()), &s("op@ck.com"), &viewers, Some(0), &Some(strs(&["a@ck.com"])))
        .unwrap_or_else(|_| panic!("a stage"));
    assert_eq!(first.len(), 2);
    assert_eq!(first[0].kind, EmailTemplateKind::TxCreated);
    assert_eq!(first[0].recipients, strs(&["v@ck.com"]));
    assert_eq!(first[1].kind, EmailTemplateKind::PendingForApproval);
    assert_eq!(first[1].step, Some(1));
    assert_eq!(first[1].recipients, strs(&["a@ck.com"]));
    let later = pending_plans(&PendingTx::PendingForApproval(()), &s("op@ck.com"), &viewers, Some(2), &Some(strs(&["b@ck.com"])))
        .unwrap_or_else(|_| panic!("a stage"));
    assert_eq!(later.len(), 1);
    assert_eq!(later[0].step, Some(3));
    assert_eq!(
        pending_plans(&PendingTx::PendingForApproval(()), &s("op@ck.com"), &viewers, None, &None).err(),
        Some(GatewayError::NoCurrentStage)
    );
    assert_eq!(
        pending_plans(&PendingTx::PendingForApproval(()), &s("op@ck.com"), &viewers, Some(0), &None).err(),
        Some(GatewayError::NoStageApprovers)
    );
}

#[test]
fn pending_transactions_ask_the_operator_to_sign() {
    let ready = pending_plans(&PendingTx::ReadyForSigning(()), &s("op@ck.com"), &vec![], None, &None).unwrap_or_else(|_| panic!("ok"));
    assert_eq!(ready.len(), 1);
    assert_eq!(ready[0].kind, EmailTemplateKind::ReadyForSigning);
    assert_eq!(ready[0].recipients, strs(&["op@ck.com"]));
    let again = pending_plans(&PendingTx::DelegationExpired(()), &s("op@ck.com"), &vec![], None, &None).unwrap_or_else(|_| panic!("ok"));
    assert_eq!(again[0].kind, EmailTemplateKind::NeedReSign);
    assert_eq!(again[0].step, None);
    assert_eq!(
        pending_plans(&PendingTx::DelegationStarted(()), &s("op@ck.com"), &vec![], None, &None).err(),
        Some(GatewayError::UnsupportedEvent)
    );
}

#[test]
fn only_subscribed_readers_are_mailed() {
    let r = subscribed_recipients(&strs(&["a", "b", "c"]), &vec![true, false, true]);
    assert_eq!(r, strs(&["a", "c"]));
    assert!(subscribed_recipients(&vec![], &vec![]).is_empty());
}

#[test]
fn nicknames_go_on_the_right_side() {
    let (from, to) = nickname_sides(true, Some(NicknameValue::from_string(s("Book"))), Some(NicknameValue::from_string(s("Wallet"))));
    assert_eq!(from.map(|v| v.as_str().to_string()), Some(s("Book")));
    assert_eq!(to.map(|v| v.as_str().to_string()), Some(s("Wallet")));
    let (from, to) = nickname_sides(false, Some(NicknameValue::from_string(s("Book"))), None);
    assert!(from.is_none());
    assert_eq!(to.map(|v| v.as_str().to_string()), Some(s("Book")));
}

#[test]
fn notification_texts_carry_the_nicknames() {
    let mut req = TxBasicInfoEmailRequest {
        from: s("w1"),
        to: s("0xabc"),
        amount_bits: 1.5f64.to_bits(),
        asset: AssetType::ETH,
        tx_link: url::Url::parse("https://ck.com/transactions/t1").unwrap(),
    };
    req.add_nickname(Some(NicknameValue::from_string(s("Treasury"))), None);
    assert_eq!(req.from(), "Treasury (w1)");
    assert_eq!(req.to(), "0xabc");
    req.add_nickname(None, Some(NicknameValue::from_string(s("Bob"))));
    assert_eq!(req.to(), "Bob (0xabc)");
}

fn running(v: u64) -> OnlineDevice {
    OnlineDevice::new(s("dev1"), TeeOnlineStatus::ServiceRunning(ServiceInfo { config_version: v }))
}

fn committed(v: u64) -> Option<CommittedConfig> {
    Some(CommittedConfig::new(s("dev1"), 5, TeeConfig { config_version: v, signed_payload: vec![] }))
}

#[test]
fn a_tee_syncs_when_waiting_or_behind() {
    assert!(need_sync(&OnlineDevice::new(s("dev1"), TeeOnlineStatus::WaitingForSync), committed(1)).is_some());
    assert!(need_sync(&running(3), committed(4)).is_some());
    assert!(need_sync(&running(4), committed(4)).is_none());
    assert!(need_sync(&running(5), committed(4)).is_none());
    assert!(need_sync(&OnlineDevice::new(s("dev1"), TeeOnlineStatus::ServicePaused), committed(9)).is_none());
    assert!(need_sync(&running(1), None).is_none());
    assert_eq!(need_sync(&running(1), committed(2)).map(|c| c.config_version()), Some(2));
}

#[test]
fn tee_status_as_clients_see_it() {
    assert_eq!(TeeStatusForClient::for_device(None), TeeStatusForClient::Offline);
    assert_eq!(TeeStatusForClient::default(), TeeStatusForClient::Offline);
    assert_eq!(
        TeeStatusForClient::from_status(TeeOnlineStatus::ServiceRunning(ServiceInfo { config_version: 2 })),
        TeeStatusForClient::ServiceRunning(ServiceInfo { config_version: 2 })
    );
    assert_eq!(TeeStatusForClient::for_device(Some(TeeOnlineStatus::ServicePaused)), TeeStatusForClient::ServicePaused);
    let mut d = OnlineDevice::new(s("dev1"), TeeOnlineStatus::WaitingForSync);
    assert_eq!(d.status().config_version(), Err(GatewayError::TeeNotRunning));
    d.set_running(7);
    assert_eq!(d.status().config_version(), Ok(7));
    assert!(d.status().is_running());
    assert_eq!(d.device_id(), "dev1");
}

#[test]
fn credentials_hand_out_their_parts() {
    let u = UserCredential::new(s("a@ck.com"), CkPublicKey(vec![1]), CkPrivateKey(vec![2]), vec![3]);
    assert_eq!(u.public_key().0, vec![1]);
    assert_eq!(u.cert(), &vec![3]);
    assert_eq!(u.into_private_key().0, vec![2]);
    let ca = CaCredential::new(vec![1], vec![2], vec![3]);
    assert_eq!((ca.ca_cert().clone(), ca.ca_der().clone(), ca.ca_key().clone()), (vec![1], vec![2], vec![3]));
    let c = Credential::new(vec![4], vec![5], vec![6], vec![7]);
    assert_eq!(c.server_ca_cert(), vec![7]);
    assert_eq!(c.inter_cert_chain(), &vec![4]);
    assert_eq!(c.client_der(), &vec![5]);
    assert_eq!(c.into_private_key(), vec![6]);
}

#[test]
fn settled_transactions_explain_themselves() {
    let on_chain = HistoryTx::from_submitted(s("t"), None, TxSubmissionResult::Accepted(s("0xh")), 1);
    assert_eq!(on_chain.message(), "tx hash: \"0xh\"");
    let refused = HistoryTx::from_submitted(s("t"), None, TxSubmissionResult::Rejected(s("say \"no\"")), 1);
    assert_eq!(refused.message(), "error message: \"say \\\"no\\\"\"");
    assert_eq!(HistoryTx::from_approver_rejected(s("t"), 1).message(), "rejected by approver");
    assert_eq!(HistoryTx::from_operator_recalled(s("t"), 1).message(), "recalled by operator");
}

#[test]
fn a_delegation_gives_its_transaction_back() {
    let d = TxDelegation::new(s("tx9"), DelegationInfo::new(1, 2, 3), 0);
    assert_eq!(d.delegation_info.gas_unit_price, 2);
    assert_eq!(d.take_tx(), "tx9");
}

#[test]
fn notifications_link_the_transaction_page_and_the_explorer() {
    assert_eq!(tx_query_link("t1"), Ok(s("https://ck.com/transactions/t1")));
    let expected = url::Url::parse("https://etherscan.io/").unwrap().join(&format!("tx/{:?}", "0xab")).unwrap();
    assert_eq!(explorer_tx_link("https://etherscan.io/", "0xab"), Ok(expected.to_string()));
    assert_eq!(explorer_tx_link("https://etherscan.io/", "0xab"), Ok(s("https://etherscan.io/tx/%220xab%22")));
    assert_eq!(explorer_tx_link("no base", "0xab"), Err(GatewayError::InvalidUrl));
}

#[test]
fn a_rejection_decides_then_a_pending_approval() {
    assert_eq!(overall_status(true, true, false), TransactionStatus::Rejected);
    assert_eq!(overall_status(true, false, false), TransactionStatus::Rejected);
    assert_eq!(overall_status(false, true, false), TransactionStatus::PendingForApproval);
    assert_eq!(overall_status(false, false, true), TransactionStatus::Approved);
}
