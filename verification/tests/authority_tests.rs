use wallet_gateway::device_info::BackupDeviceInfoBasic;
use wallet_gateway::error::GatewayError;
use wallet_gateway::model::{
    ApprovalChainBasic, ApprovalStageBasic, CkPublicKey, OperatorsBasic, Role, ViewersBasic,
};
use wallet_gateway::state_manager::{decode_device_pubkeys, LatestWalletInfo, SharedStateManager, TaApprovalStage};
use wallet_gateway::tee::{CommittedConfig, OnlineDevice, ServiceInfo, TeeConfig, TeeOnlineStatus};
use wallet_gateway::user_info::{User, UserInfo};
use wallet_gateway::wallet::{CreateConsoleWalletInfo, MultiChainAccountId, SyncedWalletInfo, UpdateConsoleWalletInfo};

const ADMIN: &str = "admin@ck.com";

fn s(x: &str) -> String {
    x.to_string()
}

fn strs(xs: &[&str]) -> Vec<String> {
    xs.iter().map(|x| x.to_string()).collect()
}

fn with_users() -> SharedStateManager {
    let mut st = SharedStateManager::new();
    let people = [
        ("Ann", "ann@ck.com", Role::Approver, "uid-ann"),
        ("Bea", "bea@ck.com", Role::Approver, "uid-bea"),
        ("Oscar", "op@ck.com", Role::TxOperator, "uid-op"),
        ("Vic", "vi@ck.com", Role::Viewer, "uid-vi"),
    ];
    for (name, email, role, uid) in people.iter() {
        assert!(st.register_user(name, &s(email), &vec![*role], CkPublicKey(vec![7]), s(uid)).is_ok());
    }
    st
}

fn chain(approvers: &[&str]) -> ApprovalChainBasic {
    ApprovalChainBasic(vec![ApprovalStageBasic::new(1, strs(approvers))])
}

fn create(name: &str, approvers: &[&str], ops: &[&str]) -> CreateConsoleWalletInfo {
    CreateConsoleWalletInfo {
        wallet_name: s(name),
        approval_chain_basic: chain(approvers),
        authorized_operators: OperatorsBasic::new(strs(ops)),
        viewers: ViewersBasic(strs(&["vi@ck.com"])),
    }
}

fn update(id: &str, name: &str, approvers: &[&str], ops: &[&str]) -> UpdateConsoleWalletInfo {
    UpdateConsoleWalletInfo {
        wallet_id: s(id),
        wallet_name: s(name),
        approval_chain_basic: chain(approvers),
        authorized_operators: OperatorsBasic::new(strs(ops)),
        viewers: ViewersBasic(strs(&["vi@ck.com"])),
    }
}

fn with_device() -> SharedStateManager {
    let mut st = with_users();
    let d = st.register_device(&s(ADMIN), CkPublicKey(vec![1]), CkPublicKey(vec![2]), s("dev1"), vec![9, 9]);
    assert!(d.is_ok());
    st
}

fn with_wallet() -> SharedStateManager {
    let mut st = with_device();
    let r = st.register_wallets_at(&s("dev1"), &vec![create("Main", &["ann@ck.com"], &["op@ck.com"])], &strs(&["w1"]), 100);
    assert!(r.is_ok());
    st
}

#[test]
fn registered_users_are_found_by_email_and_id() {
    let st = with_users();
    let ann = st.get_user_info(&s("ann@ck.com")).unwrap_or_else(|_| panic!("registered"));
    assert_eq!(ann.name, "Ann");
    assert!(ann.is_approver());
    assert!(!ann.is_admin());
    let by_id = st.get_user_info_by_id(&s("uid-op")).unwrap_or_else(|_| panic!("registered"));
    assert_eq!(by_id.email, "op@ck.com");
    assert_eq!(st.get_user_info(&s("nobody@ck.com")).err(), Some(GatewayError::UserNotFound));
    assert_eq!(st.get_user_info_by_id(&s("uid-x")).err(), Some(GatewayError::UserNotFound));
    let all: Vec<String> = st.get_all_user_info().into_iter().map(|u| u.email).collect();
    assert_eq!(all, strs(&["ann@ck.com", "bea@ck.com", "op@ck.com", "vi@ck.com"]));
}

#[test]
fn a_user_registers_once() {
    let mut st = with_users();
    let again = st.register_user("Ann2", &s("ann@ck.com"), &vec![Role::Viewer], CkPublicKey(vec![]), s("uid-2"));
    assert_eq!(again.err(), Some(GatewayError::UserAlreadyExists));
    assert_eq!(st.get_user_info(&s("ann@ck.com")).unwrap_or_else(|_| panic!("kept")).name, "Ann");
}

#[test]
fn appended_roles_keep_the_old_ones() {
    let mut st = with_users();
    let op = st.append_role(&s("op@ck.com"), &vec![Role::Viewer, Role::TxOperator]).unwrap_or_else(|_| panic!("exists"));
    assert!(op.is_tx_operator());
    assert!(op.is_viewer());
    assert_eq!(op.roles.0.len(), 2);
    assert_eq!(st.append_role(&s("x@ck.com"), &vec![Role::Viewer]).err(), Some(GatewayError::UserNotFound));
}

#[test]
fn users_are_seen_through_their_first_role() {
    let info = UserInfo::new("Z", s("z@ck.com"), &vec![Role::Viewer, Role::Approver], CkPublicKey(vec![]), s("u"));
    match User::try_from_info(info) {
        Ok(User::Approver(_)) => {},
        _ => panic!("an approver first"),
    }
    let none = UserInfo::new("N", s("n@ck.com"), &vec![], CkPublicKey(vec![]), s("n"));
    assert_eq!(User::try_from_info(none).err(), Some(GatewayError::UnknownRole));
}

#[test]
fn a_device_registers_once_for_its_owner() {
    let mut st = with_users();
    let d = st
        .register_device(&s(ADMIN), CkPublicKey(vec![1]), CkPublicKey(vec![2]), s("dev1"), vec![9])
        .unwrap_or_else(|_| panic!("new device"));
    assert_eq!(d.owner, ADMIN);
    assert_eq!(d.id, "dev1");
    assert!(d.created_wallets.is_empty());
    let again = st.register_device(&s(ADMIN), CkPublicKey(vec![1]), CkPublicKey(vec![2]), s("dev1"), vec![9]);
    assert_eq!(again.err(), Some(GatewayError::DeviceAlreadyRegistered));
    // another user cannot take the device over either
    let other = st.register_device(&s("op@ck.com"), CkPublicKey(vec![1]), CkPublicKey(vec![2]), s("dev1"), vec![9]);
    assert_eq!(other.err(), Some(GatewayError::DeviceAlreadyRegistered));
    let info = st.get_device_info(&s("dev1")).unwrap_or_else(|_| panic!("registered"));
    assert_eq!(info.owner, ADMIN);
    assert_eq!(st.get_device_info(&s("dev2")).err(), Some(GatewayError::DeviceNotFound));
}

#[test]
fn admins_operate_every_device_owners_their_own() {
    let mut st = with_device();
    assert!(st.register_device(&s("op@ck.com"), CkPublicKey(vec![]), CkPublicKey(vec![]), s("dev-op"), vec![]).is_ok());
    let op = User::try_from_info(st.get_user_info(&s("op@ck.com")).unwrap_or_else(|_| panic!("user"))).unwrap_or_else(|_| panic!("role"));
    assert!(st.user_can_operate_on_device(&op, &s("dev-op")));
    assert!(!st.user_can_operate_on_device(&op, &s("dev1")));
    let admin_info = UserInfo::new("A", s("boss@ck.com"), &vec![Role::Admin], CkPublicKey(vec![]), s("a"));
    let admin = User::try_from_info(admin_info).unwrap_or_else(|_| panic!("role"));
    assert!(st.user_can_operate_on_device(&admin, &s("dev-op")));
}

#[test]
fn device_certificates_export_and_refresh() {
    let mut st = with_device();
    assert_eq!(st.export_device_cert(&s("dev1")).unwrap_or_else(|_| panic!("exists")), vec![9, 9]);
    assert_eq!(st.refresh_device_cert(&s("dev1"), vec![5]).unwrap_or_else(|_| panic!("exists")), vec![5]);
    assert_eq!(st.export_device_cert(&s("dev1")).unwrap_or_else(|_| panic!("exists")), vec![5]);
    assert_eq!(st.export_device_cert(&s("nope")).err(), Some(GatewayError::DeviceNotFound));
    assert_eq!(st.refresh_device_cert(&s("nope"), vec![]).err(), Some(GatewayError::DeviceNotFound));
}

#[test]
fn wallets_register_on_their_device() {
    let st = with_wallet();
    let w = st.get_wallet_info(&s("w1")).unwrap_or_else(|_| panic!("registered"));
    assert_eq!(w.wallet_name, "Main");
    assert_eq!(w.created_by_device, "dev1");
    assert_eq!(w.update_time, 100);
    assert!(w.backed_up_by_devices.is_empty());
    let dev = st.get_device_info(&s("dev1")).unwrap_or_else(|_| panic!("device"));
    assert_eq!(dev.created_wallets, strs(&["w1"]));
    let all = st.get_all_wallet_info(&s("dev1")).unwrap_or_else(|_| panic!("device"));
    assert_eq!(all.len(), 1);
    assert_eq!(st.get_wallet_info(&s("w2")).err(), Some(GatewayError::WalletNotFound));
    assert_eq!(st.get_all_wallet_info(&s("dev9")).err(), Some(GatewayError::DeviceNotFound));
}

#[test]
fn wallet_registration_refusals() {
    let mut st = with_wallet();
    let unknown = st.register_wallets_at(&s("dev1"), &vec![create("X", &["who@ck.com"], &[])], &strs(&["w2"]), 1);
    assert_eq!(unknown.err(), Some(GatewayError::UserNotFound));
    let no_device = st.register_wallets_at(&s("devX"), &vec![create("X", &["ann@ck.com"], &[])], &strs(&["w2"]), 1);
    assert_eq!(no_device.err(), Some(GatewayError::DeviceNotFound));
    let taken = st.register_wallets_at(&s("dev1"), &vec![create("X", &["ann@ck.com"], &[])], &strs(&["w1"]), 1);
    assert_eq!(taken.err(), Some(GatewayError::WalletAlreadyExists));
    let not_approver = st.register_wallets_at(&s("dev1"), &vec![create("X", &["op@ck.com"], &[])], &strs(&["w2"]), 1);
    assert_eq!(not_approver.err(), Some(GatewayError::NotApprover));
    let not_operator = st.register_wallets_at(&s("dev1"), &vec![create("X", &["ann@ck.com"], &["vi@ck.com"])], &strs(&["w2"]), 1);
    assert_eq!(not_operator.err(), Some(GatewayError::NotTxOperator));
    assert_eq!(st.get_wallet_info(&s("w2")).err(), Some(GatewayError::WalletNotFound));
}

#[test]
fn a_device_holds_at_most_ten_wallets() {
    let mut st = with_device();
    for i in 0..10 {
        let id = format!("w{}", i);
        assert!(st.register_wallets_at(&s("dev1"), &vec![create("W", &["ann@ck.com"], &[])], &vec![id], 1).is_ok());
    }
    let eleventh = st.register_wallets_at(&s("dev1"), &vec![create("W", &["ann@ck.com"], &[])], &strs(&["w10"]), 1);
    assert_eq!(eleventh.err(), Some(GatewayError::TooManyWallets));
    assert_eq!(st.get_device_info(&s("dev1")).unwrap_or_else(|_| panic!("device")).created_wallets.len(), 10);
}

#[test]
fn wallets_are_edited_by_their_device() {
    let mut st = with_wallet();
    let r = st
        .update_wallet_info_at(&s("dev1"), &vec![update("w1", "Renamed", &["bea@ck.com"], &["op@ck.com"])], 200)
        .unwrap_or_else(|_| panic!("editable"));
    assert_eq!(r.len(), 1);
    let w = st.get_wallet_info(&s("w1")).unwrap_or_else(|_| panic!("exists"));
    assert_eq!(w.wallet_name, "Renamed");
    assert_eq!(w.update_time, 200);
    assert_eq!(w.approval_chain_basic.0[0].approvers, strs(&["bea@ck.com"]));
    let missing = st.update_wallet_info_at(&s("dev1"), &vec![update("w9", "X", &["ann@ck.com"], &[])], 300);
    assert_eq!(missing.err(), Some(GatewayError::WalletNotFound));
    assert!(st.register_device(&s(ADMIN), CkPublicKey(vec![]), CkPublicKey(vec![]), s("dev2"), vec![]).is_ok());
    let other = st.update_wallet_info_at(&s("dev2"), &vec![update("w1", "X", &["ann@ck.com"], &[])], 300);
    assert_eq!(other.err(), Some(GatewayError::WalletNotOwnedByDevice));
    let stranger = st.update_wallet_info_at(&s("dev1"), &vec![update("w1", "X", &["zed@ck.com"], &[])], 300);
    assert_eq!(stranger.err(), Some(GatewayError::UserNotFound));
    assert_eq!(st.get_wallet_info(&s("w1")).unwrap_or_else(|_| panic!("exists")).wallet_name, "Renamed");
}

#[test]
fn reverting_a_wallet_never_synced_removes_it() {
    let mut st = with_device();
    let before = st.get_device_info(&s("dev1")).unwrap_or_else(|_| panic!("device")).created_wallets;
    assert!(st.register_wallets_at(&s("dev1"), &vec![create("Tmp", &["ann@ck.com"], &[])], &strs(&["w-tmp"]), 1).is_ok());
    assert!(st.revert_wallet_info(&s("w-tmp")).is_ok());
    assert_eq!(st.get_wallet_info(&s("w-tmp")).err(), Some(GatewayError::WalletNotFound));
    assert_eq!(st.get_device_info(&s("dev1")).unwrap_or_else(|_| panic!("device")).created_wallets, before);
    assert_eq!(st.revert_wallet_info(&s("w-tmp")).err(), Some(GatewayError::WalletNotFound));
}

#[test]
fn reverting_a_synced_wallet_restores_what_the_tee_holds() {
    let mut st = with_wallet();
    st.put_synced_wallet(SyncedWalletInfo::new(
        s("w1"),
        chain(&["ann@ck.com"]),
        OperatorsBasic::new(strs(&["op@ck.com"])),
        vec![MultiChainAccountId::Eth(s("0xacc"))],
        150,
    ));
    assert!(st.update_wallet_info_at(&s("dev1"), &vec![update("w1", "Edited", &["bea@ck.com"], &[])], 200).is_ok());
    assert!(st.revert_wallet_info(&s("w1")).is_ok());
    let w = st.get_wallet_info(&s("w1")).unwrap_or_else(|_| panic!("kept"));
    assert_eq!(w.approval_chain_basic.0[0].approvers, strs(&["ann@ck.com"]));
    assert_eq!(w.authorized_operators.0, strs(&["op@ck.com"]));
    assert_eq!(w.update_time, 150);
    assert_eq!(w.wallet_name, "Edited");
    assert_eq!(st.get_wallet_address(&s("w1")), Some(s("0xacc")));
    assert_eq!(st.get_wallet_address(&s("w9")), None);
}

#[test]
fn backups_of_all_wallets_go_to_the_backup_device() {
    let mut st = with_wallet();
    assert!(st.register_device(&s(ADMIN), CkPublicKey(vec![]), CkPublicKey(vec![4, 4]), s("dev2"), vec![]).is_ok());
    let list = st
        .authorize_backup_device(&s("dev1"), &BackupDeviceInfoBasic { device_id: s("dev2"), wallet_id_list: vec![] })
        .unwrap_or_else(|_| panic!("both devices exist"));
    assert_eq!(list.device_id, "dev2");
    assert_eq!(list.backup_pubkey.0, vec![4, 4]);
    assert!(list.wallet_ids.is_empty());
    assert_eq!(st.get_device_info(&s("dev2")).unwrap_or_else(|_| panic!("device")).backed_up_wallets, strs(&["w1"]));
    assert_eq!(st.get_wallet_info(&s("w1")).unwrap_or_else(|_| panic!("kept")).backed_up_by_devices, strs(&["dev2"]));
    let named = st
        .authorize_backup_device(&s("dev1"), &BackupDeviceInfoBasic { device_id: s("dev2"), wallet_id_list: strs(&["w1"]) })
        .unwrap_or_else(|_| panic!("both devices exist"));
    assert_eq!(named.wallet_ids, strs(&["w1"]));
    let stranger = st.authorize_backup_device(&s("dev2"), &BackupDeviceInfoBasic { device_id: s("dev1"), wallet_id_list: strs(&["w1"]) });
    assert_eq!(stranger.err(), Some(GatewayError::WalletNotOwnedByDevice));
    let missing = st.authorize_backup_device(&s("dev1"), &BackupDeviceInfoBasic { device_id: s("dev3"), wallet_id_list: vec![] });
    assert_eq!(missing.err(), Some(GatewayError::DeviceNotFound));
}

#[test]
fn the_configuration_to_sign_lists_wallets_and_participants() {
    let st = with_wallet();
    let cfg = st.sync_config_at(&s("dev1"), 777).unwrap_or_else(|_| panic!("device"));
    assert_eq!(cfg.config_version, 777);
    assert_eq!(cfg.wallets.len(), 1);
    assert_eq!(cfg.wallets[0].wallet_id, "w1");
    let mut emails: Vec<String> = cfg.users.iter().map(|u| u.email.clone()).collect();
    emails.sort();
    assert_eq!(emails, strs(&["ann@ck.com", "op@ck.com"]));
    assert_eq!(st.sync_config_at(&s("none"), 1).err(), Some(GatewayError::DeviceNotFound));
}

fn committed(st: &mut SharedStateManager, version: u64) {
    st.commit_config(&s("dev1"), TeeConfig { config_version: version, signed_payload: vec![1, 2, 3] }, 99);
}

#[test]
fn the_online_tee_syncs_newer_configurations() {
    let mut st = with_wallet();
    assert_eq!(st.config_to_sync().err(), Some(GatewayError::NoOnlineDevice));
    st.put_online_device(OnlineDevice::new(s("dev1"), TeeOnlineStatus::ServiceRunning(ServiceInfo { config_version: 5 })));
    assert_eq!(st.config_to_sync().err(), Some(GatewayError::NoNeedToSync));
    committed(&mut st, 5);
    assert_eq!(st.config_to_sync().err(), Some(GatewayError::NoNeedToSync));
    committed(&mut st, 6);
    let c: CommittedConfig = st.config_to_sync().unwrap_or_else(|_| panic!("newer"));
    assert_eq!(c.signed_config.config_version, 6);
    assert_eq!(c.signed_config.signed_payload, vec![1, 2, 3]);
    st.put_online_device(OnlineDevice::new(s("dev1"), TeeOnlineStatus::WaitingForSync));
    committed(&mut st, 1);
    assert!(st.config_to_sync().is_ok());
    st.put_online_device(OnlineDevice::new(s("dev1"), TeeOnlineStatus::ServicePaused));
    assert_eq!(st.config_to_sync().err(), Some(GatewayError::NoNeedToSync));
    assert_eq!(st.get_committed_config(&s("dev1")).map(|c| c.timestamp), Some(99));
    assert!(st.get_committed_config(&s("dev2")).is_none());
}

#[test]
fn wallets_synced_back_are_stored_by_email_and_the_tee_runs_their_version() {
    let mut st = with_wallet();
    let latest = vec![LatestWalletInfo {
        wallet_id: s("w1"),
        approval_chain: vec![TaApprovalStage { threshold: 1, approvers: strs(&["uid-ann", "uid-bea"]) }],
        authorized_operators: strs(&["uid-op"]),
        accounts: vec![MultiChainAccountId::Btc(s("bc1q")), MultiChainAccountId::Eth(s("0xe"))],
    }];
    assert_eq!(st.store_synced_wallets(&latest, 8).err(), Some(GatewayError::NoOnlineDevice));
    st.put_online_device(OnlineDevice::new(s("dev1"), TeeOnlineStatus::WaitingForSync));
    assert!(st.store_synced_wallets(&latest, 8).is_ok());
    assert_eq!(st.get_wallet_address(&s("w1")), Some(s("bc1q")));
    assert_eq!(st.get_tee_status(&s("dev1")), Some(TeeOnlineStatus::ServiceRunning(ServiceInfo { config_version: 8 })));
    let unknown = vec![LatestWalletInfo {
        wallet_id: s("w2"),
        approval_chain: vec![],
        authorized_operators: strs(&["uid-ghost"]),
        accounts: vec![],
    }];
    assert_eq!(st.store_synced_wallets(&unknown, 9).err(), Some(GatewayError::UserNotFound));
    let resolved = st.resolve_synced_wallet(&latest[0], 3).unwrap_or_else(|_| panic!("known"));
    assert_eq!(resolved.approval_chain.0[0].approvers, strs(&["ann@ck.com", "bea@ck.com"]));
    assert_eq!(resolved.authorized_operators.0, strs(&["op@ck.com"]));
    assert_eq!(resolved.config_version, 3);
    assert_eq!(resolved.btc_account(), Some(s("bc1q")));
    assert_eq!(resolved.eth_account(), Some(s("0xe")));
    assert!(resolved.associated_with_user(&s("bea@ck.com")));
    assert!(!resolved.associated_with_user(&s("vi@ck.com")));
}

#[test]
fn only_the_online_device_has_a_status() {
    let mut st = with_device();
    assert_eq!(st.get_current_online_device().err(), Some(GatewayError::NoOnlineDevice));
    assert_eq!(st.get_tee_status(&s("dev1")), None);
    st.put_online_device(OnlineDevice::new(s("dev1"), TeeOnlineStatus::ServicePaused));
    assert_eq!(st.get_current_online_device(), Ok(s("dev1")));
    assert_eq!(st.get_tee_status(&s("dev1")), Some(TeeOnlineStatus::ServicePaused));
    assert_eq!(st.get_tee_status(&s("dev2")), None);
    st.remove_online_device();
    assert_eq!(st.get_current_online_device().err(), Some(GatewayError::NoOnlineDevice));
}

#[test]
fn device_public_keys_arrive_in_base64() {
    assert_eq!(decode_device_pubkeys("AQID"), Ok(vec![1, 2, 3]));
    assert_eq!(decode_device_pubkeys(""), Ok(vec![]));
    assert_eq!(decode_device_pubkeys("!!not base64"), Err(GatewayError::InvalidBase64));
}
