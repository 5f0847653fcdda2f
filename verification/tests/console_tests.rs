use wallet_gateway::console::{console_roles, Admin, ConsoleUser, ConsoleUserInfo, ConsoleUserRole, DeviceOperator};
use wallet_gateway::console_api::{
    authorize_admin, device_cert_export, device_cert_refresh, device_get_all, device_info_get, device_register,
    device_status, device_sync, user_info_get, user_info_get_all, user_info_get_by_id, user_register, user_role_append,
    wallet_create_with_id, wallet_info_get, wallet_info_get_all, wallet_info_revert, wallet_info_update, wallet_register,
    device_authorize,
};
use wallet_gateway::device_info::BackupDeviceInfoBasic;
use wallet_gateway::error::GatewayError;
use wallet_gateway::model::{ApprovalChainBasic, ApprovalStageBasic, CkPublicKey, OperatorsBasic, Role, ViewersBasic};
use wallet_gateway::state_manager::SharedStateManager;
use wallet_gateway::tee::{OnlineDevice, ServiceInfo, TeeOnlineStatus, TeeStatusForClient};
use wallet_gateway::wallet::{CreateConsoleWalletInfo, MultiChainAccountId, SyncedWalletInfo, UpdateConsoleWalletInfo};

const ADMIN: &str = "admin@ck.com";

fn s(x: &str) -> String {
    x.to_string()
}

fn create(name: &str) -> CreateConsoleWalletInfo {
    CreateConsoleWalletInfo {
        wallet_name: s(name),
        approval_chain_basic: ApprovalChainBasic(vec![ApprovalStageBasic::new(1, vec![s("ann@ck.com")])]),
        authorized_operators: OperatorsBasic::new(vec![]),
        viewers: ViewersBasic(vec![]),
    }
}

fn console() -> SharedStateManager {
    let mut st = SharedStateManager::new();
    assert!(user_register(&mut st, &s(ADMIN), "Ann", &s("ann@ck.com"), &vec![Role::Approver], CkPublicKey(vec![1]), s("u1")).is_ok());
    assert!(device_register(&mut st, &s(ADMIN), CkPublicKey(vec![1]), CkPublicKey(vec![2]), s("dev1"), vec![3]).is_ok());
    st
}

#[test]
fn only_the_admin_email_is_a_console_admin() {
    assert!(ConsoleUserInfo::new(s(ADMIN)).is_admin());
    assert!(!ConsoleUserInfo::new(s("ann@ck.com")).is_admin());
    assert!(Admin::try_from_info(ConsoleUserInfo::new(s(ADMIN))).is_ok());
    assert_eq!(Admin::try_from_info(ConsoleUserInfo::new(s("x@ck.com"))).err().map(|_| ()), Some(()));
    assert_eq!(DeviceOperator::try_from_info(ConsoleUserInfo::new(s(ADMIN))).err(), Some(GatewayError::NotDeviceOperator));
    match ConsoleUser::try_from_info(ConsoleUserInfo::new(s(ADMIN))) {
        Ok(u) => {
            assert_eq!(u.get_role(), ConsoleUserRole::Admin);
            assert_eq!(u.get_info().email, ADMIN);
        },
        Err(_) => panic!("admin"),
    }
    assert_eq!(ConsoleUser::try_from_info(ConsoleUserInfo::new(s("x@ck.com"))).err(), Some(GatewayError::UnknownRole));
    assert_eq!(console_roles(&s(ADMIN)), vec![ConsoleUserRole::Admin]);
    assert!(console_roles(&s("x@ck.com")).is_empty());
    assert_eq!(authorize_admin(&s("x@ck.com")).err(), Some(GatewayError::NotAdmin));
}

#[test]
fn every_console_endpoint_refuses_non_admins() {
    let mut st = console();
    let x = s("ann@ck.com");
    assert_eq!(user_register(&mut st, &x, "B", &s("b@ck.com"), &vec![], CkPublicKey(vec![]), s("u2")).err(), Some(GatewayError::NotAdmin));
    assert_eq!(user_role_append(&mut st, &x, &s("ann@ck.com"), &vec![Role::Viewer]).err(), Some(GatewayError::NotAdmin));
    assert_eq!(user_info_get(&st, &x, &s("ann@ck.com")).err(), Some(GatewayError::NotAdmin));
    assert_eq!(user_info_get_all(&st, &x).err(), Some(GatewayError::NotAdmin));
    assert_eq!(user_info_get_by_id(&st, &x, &s("u1")).err(), Some(GatewayError::NotAdmin));
    assert_eq!(device_register(&mut st, &x, CkPublicKey(vec![]), CkPublicKey(vec![]), s("d9"), vec![]).err(), Some(GatewayError::NotAdmin));
    assert_eq!(device_cert_export(&st, &x, &s("dev1")).err(), Some(GatewayError::NotAdmin));
    assert_eq!(device_cert_refresh(&mut st, &x, &s("dev1"), vec![]).err(), Some(GatewayError::NotAdmin));
    assert_eq!(
        device_authorize(&mut st, &x, &s("dev1"), &BackupDeviceInfoBasic { device_id: s("dev1"), wallet_id_list: vec![] }).err(),
        Some(GatewayError::NotAdmin)
    );
    assert_eq!(device_info_get(&st, &x, &s("dev1")).err(), Some(GatewayError::NotAdmin));
    assert_eq!(device_status(&st, &x, &s("dev1")).err(), Some(GatewayError::NotAdmin));
    assert_eq!(device_get_all(&st, &x).err(), Some(GatewayError::NotAdmin));
    assert_eq!(device_sync(&st, &x, &s("dev1")).err(), Some(GatewayError::NotAdmin));
    assert_eq!(wallet_register(&mut st, &x, &s("dev1"), &vec![create("W")], &vec![s("w1")]).err(), Some(GatewayError::NotAdmin));
    assert_eq!(wallet_info_update(&mut st, &x, &s("dev1"), &vec![]).err(), Some(GatewayError::NotAdmin));
    assert_eq!(wallet_create_with_id(&mut st, &x, &s("dev1"), vec![]).err(), Some(GatewayError::NotAdmin));
    assert_eq!(wallet_info_get(&st, &x, &s("w1")).err(), Some(GatewayError::NotAdmin));
    assert_eq!(wallet_info_get_all(&st, &x, &s("dev1")).err(), Some(GatewayError::NotAdmin));
    assert_eq!(wallet_info_revert(&mut st, &x, &s("w1")).err(), Some(GatewayError::NotAdmin));
    assert_eq!(st.get_device_info(&s("d9")).err(), Some(GatewayError::DeviceNotFound));
}

#[test]
fn the_admin_registers_devices_of_its_own() {
    let st = console();
    let d = device_info_get(&st, &s(ADMIN), &s("dev1")).unwrap_or_else(|_| panic!("registered"));
    assert_eq!(d.owner, ADMIN);
    assert_eq!(device_cert_export(&st, &s(ADMIN), &s("dev1")), Ok(vec![3]));
    let users = user_info_get_all(&st, &s(ADMIN)).unwrap_or_else(|_| panic!("admin"));
    assert_eq!(users.len(), 1);
    assert_eq!(user_info_get_by_id(&st, &s(ADMIN), &s("u1")).unwrap_or_else(|_| panic!("known")).email, "ann@ck.com");
    assert_eq!(user_info_get(&st, &s(ADMIN), &s("zz@ck.com")).err(), Some(GatewayError::UserNotFound));
}

#[test]
fn wallet_names_have_at_most_twenty_bytes() {
    let mut st = console();
    let long = create(&"n".repeat(21));
    assert_eq!(wallet_register(&mut st, &s(ADMIN), &s("dev1"), &vec![long], &vec![s("w1")]).err(), Some(GatewayError::NameTooLong));
    let ok = wallet_register(&mut st, &s(ADMIN), &s("dev1"), &vec![create(&"n".repeat(20))], &vec![s("w1")]);
    assert!(ok.is_ok());
    let edit = UpdateConsoleWalletInfo {
        wallet_id: s("w1"),
        wallet_name: "m".repeat(21),
        approval_chain_basic: ApprovalChainBasic(vec![]),
        authorized_operators: OperatorsBasic::new(vec![]),
        viewers: ViewersBasic(vec![]),
    };
    assert_eq!(wallet_info_update(&mut st, &s(ADMIN), &s("dev1"), &vec![edit]).err(), Some(GatewayError::NameTooLong));
}

#[test]
fn wallets_are_shown_with_their_first_synced_account() {
    let mut st = console();
    let shown = wallet_register(&mut st, &s(ADMIN), &s("dev1"), &vec![create("Main")], &vec![s("w1")])
        .unwrap_or_else(|_| panic!("registers"));
    assert_eq!(shown.len(), 1);
    assert_eq!(shown[0].wallet_id, "w1");
    assert_eq!(shown[0].account_address, None);
    st.put_synced_wallet(SyncedWalletInfo::new(
        s("w1"),
        ApprovalChainBasic(vec![]),
        OperatorsBasic::new(vec![]),
        vec![MultiChainAccountId::Eth(s("0xeth")), MultiChainAccountId::Btc(s("bc1"))],
        1,
    ));
    let one = wallet_info_get(&st, &s(ADMIN), &s("w1")).unwrap_or_else(|_| panic!("exists"));
    assert_eq!(one.account_address, Some(s("0xeth")));
    assert_eq!(one.wallet_name, "Main");
    let all = wallet_info_get_all(&st, &s(ADMIN), &s("dev1")).unwrap_or_else(|_| panic!("device"));
    assert_eq!(all.len(), 1);
    assert_eq!(all[0].account_address, Some(s("0xeth")));
    assert_eq!(wallet_info_get(&st, &s(ADMIN), &s("w2")).err(), Some(GatewayError::WalletNotFound));
    assert_eq!(wallet_info_get_all(&st, &s(ADMIN), &s("devX")).err(), Some(GatewayError::DeviceNotFound));
}

#[test]
fn wallets_can_be_created_with_given_ids() {
    let mut st = console();
    let with_id = UpdateConsoleWalletInfo {
        wallet_id: s("given-id"),
        wallet_name: s("Given"),
        approval_chain_basic: ApprovalChainBasic(vec![ApprovalStageBasic::new(1, vec![s("ann@ck.com")])]),
        authorized_operators: OperatorsBasic::new(vec![]),
        viewers: ViewersBasic(vec![]),
    };
    let r = wallet_create_with_id(&mut st, &s(ADMIN), &s("dev1"), vec![with_id]).unwrap_or_else(|_| panic!("new id"));
    assert_eq!(r[0].wallet_id, "given-id");
    assert!(wallet_info_revert(&mut st, &s(ADMIN), &s("given-id")).is_ok());
    assert_eq!(wallet_info_get(&st, &s(ADMIN), &s("given-id")).err(), Some(GatewayError::WalletNotFound));
}

#[test]
fn device_status_is_offline_unless_the_device_is_online() {
    let mut st = console();
    assert_eq!(device_status(&st, &s(ADMIN), &s("dev1")), Ok(TeeStatusForClient::Offline));
    assert_eq!(device_get_all(&st, &s(ADMIN)).err(), Some(GatewayError::NoOnlineDevice));
    st.put_online_device(OnlineDevice::new(s("dev1"), TeeOnlineStatus::ServiceRunning(ServiceInfo { config_version: 3 })));
    assert_eq!(
        device_status(&st, &s(ADMIN), &s("dev1")),
        Ok(TeeStatusForClient::ServiceRunning(ServiceInfo { config_version: 3 }))
    );
    assert_eq!(device_status(&st, &s(ADMIN), &s("dev2")), Ok(TeeStatusForClient::Offline));
    assert_eq!(device_get_all(&st, &s(ADMIN)), Ok(vec![s("dev1")]));
    assert!(device_sync(&st, &s(ADMIN), &s("dev1")).is_ok());
    assert_eq!(device_sync(&st, &s(ADMIN), &s("devX")).err(), Some(GatewayError::DeviceNotFound));
}

#[test]
fn console_role_changes_and_cert_refresh() {
    let mut st = console();
    let ann = user_role_append(&mut st, &s(ADMIN), &s("ann@ck.com"), &vec![Role::Viewer]).unwrap_or_else(|_| panic!("known"));
    assert!(ann.is_approver() && ann.is_viewer());
    assert_eq!(device_cert_refresh(&mut st, &s(ADMIN), &s("dev1"), vec![8]), Ok(vec![8]));
    assert_eq!(device_cert_export(&st, &s(ADMIN), &s("dev1")), Ok(vec![8]));
    assert_eq!(
        user_register(&mut st, &s(ADMIN), "Ann", &s("ann@ck.com"), &vec![], CkPublicKey(vec![]), s("u9")).err(),
        Some(GatewayError::UserAlreadyExists)
    );
}
