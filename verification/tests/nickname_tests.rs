use wallet_gateway::storage::Storable;
use wallet_gateway::email::{format_nickname_address, EmailTemplateKind};
use wallet_gateway::error::GatewayError;
use wallet_gateway::nickname::{AddressBookEntry, AddressName, NicknameInfo, NicknameKey, NicknameValue};

fn key(s: &str) -> NicknameKey {
    NicknameKey::from_string(s.to_string())
}

fn value(s: &str) -> NicknameValue {
    NicknameValue::from_string(s.to_string())
}

#[test]
fn nickname_keys_fit_a_taproot_address() {
    let taproot = "bc1p".to_string() + &"q".repeat(58);
    assert_eq!(taproot.len(), 62);
    assert!(NicknameKey::parse(taproot.clone()).is_ok());
    assert_eq!(NicknameKey::parse(taproot + "q").err(), Some(GatewayError::NameTooLong));
    assert_eq!(NicknameKey::parse(String::new()).err(), Some(GatewayError::EmptyName));
}

#[test]
fn names_have_one_to_twenty_bytes() {
    assert!(NicknameValue::parse("a".repeat(20)).is_ok());
    assert_eq!(NicknameValue::parse("a".repeat(21)).err(), Some(GatewayError::NameTooLong));
    assert_eq!(NicknameValue::parse(String::new()).err(), Some(GatewayError::EmptyName));
    // seven three-byte characters are 21 bytes
    assert_eq!(AddressName::parse("日本語日本語日".to_string()).err(), Some(GatewayError::NameTooLong));
    assert!(AddressName::parse("日本語".to_string()).is_ok());
    assert_eq!(AddressName::parse(String::new()).err(), Some(GatewayError::EmptyName));
}

#[test]
fn a_set_nickname_is_read_back_and_removed() {
    let mut info = NicknameInfo::new("alice@ck.com".to_string());
    assert!(info.get_nickname(&key("0xabc")).is_none());
    info.set_nickname(key("0xabc"), value("Bob"));
    info.set_nickname(key("0xdef"), value("Carol"));
    assert_eq!(info.get_nickname(&key("0xabc")).map(|v| v.as_str().to_string()), Some("Bob".to_string()));
    info.set_nickname(key("0xabc"), value("Bobby"));
    assert_eq!(info.get_nickname(&key("0xabc")).map(|v| v.as_str().to_string()), Some("Bobby".to_string()));
    info.remove_nickname(&key("0xabc"));
    assert!(info.get_nickname(&key("0xabc")).is_none());
    assert_eq!(info.get_nickname(&key("0xdef")).map(|v| v.as_str().to_string()), Some("Carol".to_string()));
    let all: Vec<(String, String)> =
        info.take_all().into_iter().map(|(k, v)| (k.as_string().clone(), v.as_str().to_string())).collect();
    assert_eq!(all, vec![("0xdef".to_string(), "Carol".to_string())]);
}

#[test]
fn nicknames_are_shown_before_the_address() {
    assert_eq!(format_nickname_address(Some(value("Bob")), "0xabc"), "Bob (0xabc)");
    assert_eq!(format_nickname_address(None, "0xabc"), "0xabc");
}

#[test]
fn address_book_entries_record_who_renamed_them_and_when() {
    let mut e = AddressBookEntry::new(
        "0xabc".to_string(),
        AddressName::parse("Bob".to_string()).unwrap_or_else(|_| panic!("valid")),
        "alice@ck.com".to_string(),
        10,
    );
    e.update_name(AddressName::parse("Robert".to_string()).unwrap_or_else(|_| panic!("valid")), "carol@ck.com".to_string(), 20);
    assert_eq!(e.address, "0xabc");
    assert_eq!(e.name.0, "Robert");
    assert_eq!(e.last_modified_by, "carol@ck.com");
    assert_eq!(e.last_modified_time, 20);
    let null = AddressBookEntry::new_null("0xdef".to_string());
    assert_eq!(null.name.0, "unknown");
    assert_eq!(null.last_modified_time, 0);
    assert_eq!(null.last_modified_by, "admin@ck.com");
}

#[test]
fn templates_have_their_mail_service_names() {
    assert_eq!(EmailTemplateKind::Cancelled.template_name(), "tx-cancelled");
    assert_eq!(EmailTemplateKind::Declined.template_name(), "tx-declined");
    assert_eq!(EmailTemplateKind::ReadyForSigning.template_name(), "ready-to-sign");
    assert_eq!(EmailTemplateKind::NeedReSign.template_name(), "re-sign");
    assert_eq!(EmailTemplateKind::TxCreated.template_name(), "tx-created");
    assert_eq!(EmailTemplateKind::PendingForApproval.template_name(), "require-approval");
    assert_eq!(EmailTemplateKind::OnChain.template_name(), "tx-completed");
    assert_eq!(EmailTemplateKind::Received.template_name(), "tx-received");
    assert_eq!(EmailTemplateKind::RejectedByNetwork.template_name(), "tx-rejected-by-network");
}

#[test]
fn address_book_entries_are_keyed_by_the_lower_case_address() {
    let address = "0xAbCdEF-Zz É".to_string();
    let e = AddressBookEntry::new(
        address.clone(),
        AddressName::parse("Bob".to_string()).unwrap_or_else(|_| panic!("valid")),
        "alice@ck.com".to_string(),
        10,
    );
    assert_eq!(e.unique_id(), "0xabcdef-zz É");
    assert_eq!(e.unique_id(), address.to_ascii_lowercase());
}
