use wallet_gateway::balance::BalanceInfo;
use wallet_gateway::asset::AssetType;
use wallet_gateway::error::GatewayError;
use wallet_gateway::model::{CkPublicKey, Role};
use wallet_gateway::nickname::{AddressBookEntry, AddressName};
use wallet_gateway::payment::AddressUtxoRecords;
use wallet_gateway::storage::{
    make_storage_key, starts_with_bytes, DeleteRequest, GetRequest, KvStore, ListByPrefixRequest, PutRequest, Storable,
};
use wallet_gateway::user_info::UserInfo;

fn put(store: &mut KvStore, key: &str, value: &[u8]) {
    store.put(PutRequest { key: key.as_bytes().to_vec(), value: value.to_vec() });
}

fn get(store: &KvStore, key: &str) -> Option<Vec<u8>> {
    store.get(GetRequest { key: key.as_bytes().to_vec() }).value
}

#[test]
fn storage_key_joins_table_and_id_with_hash() {
    assert_eq!(make_storage_key("UserInfo", "alice@ck.com"), "UserInfo#alice@ck.com");
    assert_eq!(make_storage_key("", ""), "#");
}

#[test]
fn user_info_is_stored_under_its_email() {
    let info = UserInfo::new("Alice", "alice@ck.com".to_string(), &vec![Role::Admin], CkPublicKey(vec![1, 2]), "u1".to_string());
    assert_eq!(UserInfo::table_name(), "UserInfo");
    assert_eq!(info.unique_id(), "alice@ck.com");
    assert_eq!(info.storage_key(), "UserInfo#alice@ck.com");
}

#[test]
fn balance_and_utxo_records_are_keyed_by_account_and_address() {
    let b = BalanceInfo::new("0xabc".to_string(), vec![AssetType::ETH]);
    assert_eq!(b.storage_key(), "BalanceInfo#0xabc");
    let u = AddressUtxoRecords::new("bc1qxyz".to_string());
    assert_eq!(u.storage_key(), "AddressUtxoRecords#bc1qxyz");
}

#[test]
fn address_book_entries_are_keyed_by_lower_case_address() {
    let e = AddressBookEntry::new(
        "0xABCdef".to_string(),
        AddressName::parse("Bob".to_string()).unwrap_or_else(|_| panic!("valid name")),
        "alice@ck.com".to_string(),
        5,
    );
    assert_eq!(e.unique_id(), "0xabcdef");
    assert_eq!(e.storage_key(), "AddressBookEntry#0xabcdef");
}

#[test]
fn starts_with_bytes_checks_the_prefix() {
    assert!(starts_with_bytes(&b"UserInfo#a".to_vec(), b"UserInfo#"));
    assert!(starts_with_bytes(&b"abc".to_vec(), b""));
    assert!(!starts_with_bytes(&b"ab".to_vec(), b"abc"));
    assert!(!starts_with_bytes(&b"xbc".to_vec(), b"ab"));
}

#[test]
fn store_get_after_put_and_delete() {
    let mut store = KvStore::new();
    assert_eq!(get(&store, "k"), None);
    put(&mut store, "k", b"v1");
    put(&mut store, "other", b"o");
    assert_eq!(get(&store, "k"), Some(b"v1".to_vec()));
    put(&mut store, "k", b"v2");
    assert_eq!(get(&store, "k"), Some(b"v2".to_vec()));
    assert_eq!(get(&store, "other"), Some(b"o".to_vec()));
    store.delete(DeleteRequest { key: b"k".to_vec() });
    assert_eq!(get(&store, "k"), None);
    assert_eq!(get(&store, "other"), Some(b"o".to_vec()));
}

#[test]
fn store_delete_of_a_fresh_put_restores_the_listing() {
    let mut store = KvStore::new();
    put(&mut store, "a", b"1");
    let before = store.list().unwrap_or_else(|_| panic!("utf8 keys")).map;
    put(&mut store, "b", b"2");
    store.delete(DeleteRequest { key: b"b".to_vec() });
    let after = store.list().unwrap_or_else(|_| panic!("utf8 keys")).map;
    assert_eq!(before, after);
}

#[test]
fn store_lists_every_entry_in_insertion_order() {
    let mut store = KvStore::new();
    put(&mut store, "UserInfo#b", b"2");
    put(&mut store, "UserInfo#a", b"1");
    put(&mut store, "DeviceInfo#d", b"3");
    let all = store.list().unwrap_or_else(|_| panic!("utf8 keys")).map;
    assert_eq!(
        all,
        vec![
            ("UserInfo#b".to_string(), b"2".to_vec()),
            ("UserInfo#a".to_string(), b"1".to_vec()),
            ("DeviceInfo#d".to_string(), b"3".to_vec()),
        ]
    );
    let users = store
        .list_by_prefix(ListByPrefixRequest { prefix: "UserInfo#".to_string() })
        .unwrap_or_else(|_| panic!("utf8 keys"))
        .map;
    assert_eq!(users, vec![("UserInfo#b".to_string(), b"2".to_vec()), ("UserInfo#a".to_string(), b"1".to_vec())]);
    let none = store
        .list_by_prefix(ListByPrefixRequest { prefix: "Nothing#".to_string() })
        .unwrap_or_else(|_| panic!("utf8 keys"))
        .map;
    assert!(none.is_empty());
}

#[test]
fn store_listing_refuses_keys_that_are_not_utf8() {
    let mut store = KvStore::new();
    store.put(PutRequest { key: vec![0xff, 0xfe], value: vec![1] });
    assert_eq!(store.list().err(), Some(GatewayError::InvalidUtf8));
    put(&mut store, "ok", b"1");
    assert_eq!(
        store.list_by_prefix(ListByPrefixRequest { prefix: String::new() }).err(),
        Some(GatewayError::InvalidUtf8)
    );
    assert_eq!(
        store.list_by_prefix(ListByPrefixRequest { prefix: "ok".to_string() }).err(),
        Some(GatewayError::InvalidUtf8)
    );
}
