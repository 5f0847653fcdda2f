use wallet_gateway::abi::{erc20_balance_of_data, erc20_transfer_data};
use wallet_gateway::error::GatewayError;
use wallet_gateway::export::{export_names, export_names_at, export_url, ExportedFileType};
use wallet_gateway::hex::{parse_quantity_str, parse_u128_decimal, parse_u64_decimal, raw_transaction_hex};

#[test]
fn quantities_need_the_hex_prefix() {
    assert_eq!(parse_quantity_str("0x1a"), Ok(26));
    assert_eq!(parse_quantity_str("0x0"), Ok(0));
    assert_eq!(parse_quantity_str("0xDEADbeef"), Ok(0xdeadbeef));
    assert_eq!(parse_quantity_str("1a"), Err(GatewayError::MissingHexPrefix));
    assert_eq!(parse_quantity_str("0"), Err(GatewayError::MissingHexPrefix));
    assert_eq!(parse_quantity_str(""), Err(GatewayError::MissingHexPrefix));
    assert_eq!(parse_quantity_str("0x"), Err(GatewayError::InvalidNumber));
    assert_eq!(parse_quantity_str("0xzz"), Err(GatewayError::InvalidNumber));
    assert_eq!(parse_quantity_str("0x+f"), Ok(15));
}

#[test]
fn quantities_must_fit_in_u128() {
    assert_eq!(parse_quantity_str("0xffffffffffffffffffffffffffffffff"), Ok(u128::MAX));
    assert_eq!(parse_quantity_str("0x100000000000000000000000000000000"), Err(GatewayError::InvalidNumber));
}

#[test]
fn decimals_parse_as_std_does() {
    assert_eq!(parse_u128_decimal("42"), Some(42));
    assert_eq!(parse_u128_decimal("+7"), Some(7));
    assert_eq!(parse_u128_decimal(""), None);
    assert_eq!(parse_u128_decimal("-1"), None);
    assert_eq!(parse_u128_decimal("1.5"), None);
    assert_eq!(parse_u64_decimal("18446744073709551615"), Some(u64::MAX));
    assert_eq!(parse_u64_decimal("18446744073709551616"), None);
}

#[test]
fn raw_transactions_are_sent_in_lower_hex() {
    assert_eq!(raw_transaction_hex(&vec![0xde, 0xad, 0x01, 0xBE]), "0xdead01be");
    assert_eq!(raw_transaction_hex(&vec![]), "0x");
}

fn word_of_address(a: [u8; 20]) -> Vec<u8> {
    let mut w = vec![0u8; 12];
    w.extend_from_slice(&a);
    w
}

fn word_of_number(v: u128) -> Vec<u8> {
    let mut w = vec![0u8; 16];
    w.extend_from_slice(&v.to_be_bytes());
    w
}

#[test]
fn erc20_transfer_call_data() {
    let to = [0x11u8; 20];
    let data = erc20_transfer_data(to, 1_000_000);
    let mut expected = vec![0xa9, 0x05, 0x9c, 0xbb];
    expected.extend(word_of_address(to));
    expected.extend(word_of_number(1_000_000));
    assert_eq!(data.len(), 68);
    assert_eq!(data, expected);
}

#[test]
fn erc20_balance_of_call_data() {
    let owner = [0xabu8; 20];
    let data = erc20_balance_of_data(owner);
    let mut expected = vec![0x70, 0xa0, 0x82, 0x31];
    expected.extend(word_of_address(owner));
    assert_eq!(data, expected);
}

#[test]
fn export_file_kinds_have_their_names() {
    assert_eq!(ExportedFileType::Cert.as_str(), "cert");
    assert_eq!(ExportedFileType::WalletInfo.as_str(), "wallet_info");
    assert_eq!(ExportedFileType::SignedBackupList.as_str(), "signed_backup_list");
}

#[test]
fn exports_are_named_id_kind_stamp_and_latest() {
    let n = export_names("dev-1", &ExportedFileType::Cert, 1700000000);
    assert_eq!(n.file_name, "dev-1.cert.1700000000");
    assert_eq!(n.latest_name, "dev-1.cert.latest");
    let z = export_names("d", &ExportedFileType::WalletInfo, 0);
    assert_eq!(z.file_name, "d.wallet_info.0");
    let t = export_names_at("d", &ExportedFileType::SignedBackupList, Some(42)).unwrap_or_else(|_| panic!("stamped"));
    assert_eq!(t.file_name, "d.signed_backup_list.42");
    assert_eq!(t.latest_name, "d.signed_backup_list.latest");
}

#[test]
fn exports_without_a_stamp_use_the_clock() {
    let before = std::time::SystemTime::now().duration_since(std::time::UNIX_EPOCH).unwrap().as_secs();
    let n = export_names_at("d", &ExportedFileType::Cert, None).unwrap_or_else(|_| panic!("clock"));
    let stamp: u64 = n.file_name.trim_start_matches("d.cert.").parse().unwrap();
    assert!(stamp >= before);
    assert!(before > 1_600_000_000);
}

#[test]
fn export_links_resolve_the_latest_name_against_the_base() {
    let n = export_names("dev-1", &ExportedFileType::Cert, 5);
    let link = export_url("https://files.example.com/exports/", &n).unwrap_or_else(|_| panic!("joins"));
    assert_eq!(link, "https://files.example.com/exports/dev-1.cert.latest");
    // without a trailing slash the last segment of the base is replaced
    let link = export_url("https://h.example/export", &n).unwrap_or_else(|_| panic!("joins"));
    assert_eq!(link, "https://h.example/dev-1.cert.latest");
    let stamped = export_names("dev1", &ExportedFileType::Cert, 42);
    let link = export_url("https://h.example/export/", &stamped).unwrap_or_else(|_| panic!("joins"));
    assert_eq!(link, "https://h.example/export/dev1.cert.latest");
}

#[test]
fn export_links_need_a_base_url() {
    let n = export_names("dev-1", &ExportedFileType::Cert, 5);
    assert_eq!(export_url("not a url", &n), Err(GatewayError::InvalidUrl));
}
