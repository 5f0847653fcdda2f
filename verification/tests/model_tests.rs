use wallet_gateway::byte_table::{bytes_eq, ByteTable};
use wallet_gateway::device_info::{DeviceIndex, DeviceInfo};
use wallet_gateway::device_registry::DeviceRegistry;
use wallet_gateway::error::GatewayError;
use wallet_gateway::model::{
    ApprovalChainBasic, ApprovalStageBasic, CkPublicKey, OperatorsBasic, Role, RoleSet, ViewersBasic,
};
use wallet_gateway::storage::make_storage_key;
use wallet_gateway::strs::{contains_str, dedup_strs, push_unique, remove_str, union_strs};
use wallet_gateway::table::Table;
use wallet_gateway::user_registry::UserRegistry;
use wallet_gateway::wallet::{ConsoleWalletInfo, SyncedWalletInfo};

fn s(x: &str) -> String {
    x.to_string()
}

fn strs(xs: &[&str]) -> Vec<String> {
    xs.iter().map(|x| x.to_string()).collect()
}

#[test]
fn keys_of_tables_without_hash_never_collide() {
    assert_ne!(make_storage_key("UserInfo", "ab"), make_storage_key("UserInfoa", "b"));
    assert_ne!(make_storage_key("DeviceInfo", "x"), make_storage_key("UserInfo", "x"));
    // a table name holding `#` could collide, which is why none does
    assert_eq!(make_storage_key("A#b", "c"), make_storage_key("A", "b#c"));
}

#[test]
fn tables_keep_one_value_per_key_in_insertion_order() {
    let mut t: Table<u32> = Table::new();
    t.insert(s("b"), 2);
    t.insert(s("a"), 1);
    t.insert(s("b"), 3);
    assert_eq!(t.len(), 2);
    assert_eq!(t.get(&s("b")), Some(&3));
    assert!(t.contains_key(&s("a")));
    assert_eq!(t.position(&s("a")), Some(1));
    assert_eq!(t.remove(&s("b")), Some(3));
    assert_eq!(t.remove(&s("b")), None);
    assert_eq!(t.into_entries(), vec![(s("a"), 1)]);
    let mut b: ByteTable<u8> = ByteTable::new();
    b.insert(vec![1, 2], 7);
    assert_eq!(b.get(&vec![1, 2]), Some(&7));
    assert_eq!(b.get(&vec![1]), None);
    assert!(bytes_eq(&vec![1, 2], &vec![1, 2]));
    assert!(!bytes_eq(&vec![1, 2], &vec![1]));
}

#[test]
fn string_lists_keep_each_string_once() {
    let mut v = strs(&["a"]);
    push_unique(&mut v, s("b"));
    push_unique(&mut v, s("a"));
    assert_eq!(v, strs(&["a", "b"]));
    assert!(contains_str(&v, &s("b")));
    assert!(remove_str(&mut v, &s("a")));
    assert!(!remove_str(&mut v, &s("a")));
    assert_eq!(v, strs(&["b"]));
    assert_eq!(dedup_strs(&strs(&["x", "y", "x"])), strs(&["x", "y"]));
    assert_eq!(union_strs(&strs(&["x"]), &strs(&["y", "x", "z"])), strs(&["x", "y", "z"]));
}

#[test]
fn role_sets_hold_each_role_once() {
    let mut r = RoleSet::from_roles(&vec![Role::Viewer, Role::Viewer, Role::Admin]);
    assert_eq!(r.0, vec![Role::Viewer, Role::Admin]);
    r.insert(Role::Admin);
    r.insert(Role::Approver);
    assert_eq!(r.0, vec![Role::Viewer, Role::Admin, Role::Approver]);
    assert!(r.contains(Role::Approver));
    assert!(!r.contains(Role::TxOperator));
}

#[test]
fn approval_chains_list_their_approvers_once() {
    let chain = ApprovalChainBasic(vec![
        ApprovalStageBasic::new(1, strs(&["a", "b"])),
        ApprovalStageBasic::new(2, strs(&["b", "c"])),
    ]);
    assert_eq!(chain.distinct_approvers(), strs(&["a", "b", "c"]));
    assert!(chain.contains(&s("c")));
    assert!(!chain.contains(&s("d")));
    let ops = OperatorsBasic::new(strs(&["o", "o", "p"]));
    assert_eq!(ops.distinct_operators(), strs(&["o", "p"]));
    assert!(ops.contains(&s("p")));
    assert!(ViewersBasic(strs(&["v"])).contains(&s("v")));
}

fn wallet() -> ConsoleWalletInfo {
    ConsoleWalletInfo::new(
        s("dev1"),
        s("Main"),
        ApprovalChainBasic(vec![ApprovalStageBasic::new(1, strs(&["a"]))]),
        OperatorsBasic::new(strs(&["o"])),
        ViewersBasic(strs(&["v"])),
        s("w1"),
        10,
    )
}

#[test]
fn console_wallets_are_edited_backed_up_and_reverted() {
    let mut w = wallet();
    assert_eq!(w.distinct_participants(), strs(&["a", "o"]));
    assert!(w.can_view(&s("v")));
    assert!(!w.can_view(&s("x")));
    w.update_info(&s("Renamed"), &ApprovalChainBasic(vec![]), &OperatorsBasic::new(strs(&["p"])), &ViewersBasic(vec![]), 20);
    assert_eq!(w.wallet_name, "Renamed");
    assert_eq!(w.update_time, 20);
    assert!(!w.can_view(&s("v")));
    w.add_backup_device(s("dev2"));
    w.add_backup_device(s("dev2"));
    assert_eq!(w.backed_up_by_devices, strs(&["dev2"]));
    let synced = SyncedWalletInfo::new(
        s("w1"),
        ApprovalChainBasic(vec![ApprovalStageBasic::new(1, strs(&["a"]))]),
        OperatorsBasic::new(strs(&["o"])),
        vec![],
        15,
    );
    let mut users = synced.associated_users_owned();
    users.sort();
    assert_eq!(users, strs(&["a", "o"]));
    w.revert_info(&synced);
    assert_eq!(w.authorized_operators.0, strs(&["o"]));
    assert_eq!(w.update_time, 15);
    let u = w.into_update_info();
    assert_eq!(u.wallet_id, "w1");
    assert_eq!(u.wallet_name, "Renamed");
}

#[test]
fn devices_list_created_and_backed_up_wallets() {
    let mut d = DeviceInfo::new(s("admin@ck.com"), s("dev1"), CkPublicKey(vec![1]), CkPublicKey(vec![2]), vec![3], vec![], vec![], 77);
    assert_eq!(d.register_time(), 77);
    assert!(d.add_owned_wallet(&wallet()).is_ok());
    assert_eq!(d.add_owned_wallet(&wallet()), Err(GatewayError::WalletAlreadyCreatedOnDevice));
    assert!(d.add_backup_wallet(&s("w9")).is_ok());
    assert!(d.add_backup_wallet(&s("w9")).is_ok());
    assert_eq!(d.existing_wallets_num(), 2);
    assert_eq!(d.wallet_id_list(), strs(&["w1", "w9"]));
    assert_eq!(d.remove_owned_wallet(&s("w9")), Err(GatewayError::WalletNotOwnedByDevice));
    assert!(d.remove_owned_wallet(&s("w1")).is_ok());
    assert!(d.created_wallets().is_empty());
    let mut e = DeviceInfo::new(s("x"), s("dev2"), CkPublicKey(vec![]), CkPublicKey(vec![]), vec![], vec![], strs(&["w1"]), 0);
    assert_eq!(e.add_owned_wallet(&wallet()), Err(GatewayError::WalletAlreadyBackedUpOnDevice));
    e.set_cert(vec![8]);
    assert_eq!(e.cert(), &vec![8]);
    let basic = e.basic();
    assert_eq!(basic.backed_up_wallets, strs(&["w1"]));
    let idx = DeviceIndex::new(s("x"), strs(&["dev2", "dev2"]));
    assert_eq!(idx.device_list(), &strs(&["dev2"]));
    assert!(idx.contains(&s("dev2")));
}

#[test]
fn registries_find_users_devices_and_accounts() {
    let mut users = UserRegistry::init();
    assert!(users.add_user("A", &s("a@ck.com"), &vec![Role::TxOperator], CkPublicKey(vec![5]), s("ua")).is_ok());
    assert!(users.add_user("B", &s("b@ck.com"), &vec![Role::Viewer], CkPublicKey(vec![6]), s("ub")).is_ok());
    assert!(users.user_exist(&s("a@ck.com")));
    assert_eq!(users.get_roles(&s("a@ck.com")), Ok(vec![Role::TxOperator]));
    assert_eq!(users.get_user_public_key(&s("b@ck.com")).map(|k| k.0), Ok(vec![6]));
    assert_eq!(users.email_of_uid(&s("ub")), Some(s("b@ck.com")));
    assert_eq!(users.email_of_uid(&s("zz")), None);
    let ops: Vec<String> = users.tx_operators().into_iter().map(|u| u.email).collect();
    assert_eq!(ops, strs(&["a@ck.com"]));
    assert_eq!(users.get(&s("nobody")).err(), Some(GatewayError::UserNotFound));

    let mut reg = DeviceRegistry::init();
    assert!(reg.register_device(&s("a@ck.com"), CkPublicKey(vec![]), CkPublicKey(vec![]), s("d1"), vec![], 1).is_ok());
    assert!(reg.register_device(&s("a@ck.com"), CkPublicKey(vec![]), CkPublicKey(vec![]), s("d2"), vec![], 2).is_ok());
    assert_eq!(reg.device_owner(&s("d2")), Ok(s("a@ck.com")));
    assert_eq!(reg.device_owner(&s("d3")), Err(GatewayError::DeviceNotFound));
    assert!(reg.device_exist_for_user(&s("a@ck.com"), &s("d1")));
    assert!(!reg.device_exist_for_user(&s("b@ck.com"), &s("d1")));
    let mine: Vec<String> = reg.get_device_info_for_user(&s("a@ck.com")).unwrap_or_else(|_| panic!("indexed")).into_iter().map(|d| d.id).collect();
    assert_eq!(mine, strs(&["d1", "d2"]));
    assert_eq!(reg.get_device_info_for_user(&s("b@ck.com")).err(), Some(GatewayError::DeviceIndexNotFound));
    assert_eq!(reg.get_wallet_account(&s("w1")), None);
    reg.save_wallet_account(&s("w1"), &s("0xacc"));
    assert_eq!(reg.get_wallet_account(&s("w1")), Some(s("0xacc")));
    assert_eq!(reg.get_wallet_id_associated_with_device(&s("d1")), Ok(vec![]));
}
