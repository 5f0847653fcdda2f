//! Where each record of the registries is stored: its table and its id.
use vstd::prelude::*;
use crate::balance::BalanceInfo;
use crate::device_info::{DeviceIndex, DeviceInfo};
use crate::payment::AddressUtxoRecords;
use crate::model::clone_str;
use crate::storage::Storable;
use crate::user_info::{UidToEmail, UserInfo};
use crate::wallet::{ConsoleWalletInfo, SyncedWalletInfo, WalletAccountInfo};

verus! {

impl Storable for UserInfo {
    open spec fn table_name_spec() -> Seq<char> {
        "UserInfo"@
    }

    open spec fn unique_id_spec(&self) -> Seq<char> {
        self.email@
    }

    fn table_name() -> (r: &'static str) {
        "UserInfo"
    }

    fn unique_id(&self) -> (r: String) {
        clone_str(&self.email)
    }
}

impl Storable for UidToEmail {
    open spec fn table_name_spec() -> Seq<char> {
        "UidToEmail"@
    }

    open spec fn unique_id_spec(&self) -> Seq<char> {
        self.user_id@
    }

    fn table_name() -> (r: &'static str) {
        "UidToEmail"
    }

    fn unique_id(&self) -> (r: String) {
        clone_str(&self.user_id)
    }
}

impl Storable for DeviceInfo {
    open spec fn table_name_spec() -> Seq<char> {
        "DeviceInfo"@
    }

    open spec fn unique_id_spec(&self) -> Seq<char> {
        self.id_spec()
    }

    fn table_name() -> (r: &'static str) {
        "DeviceInfo"
    }

    fn unique_id(&self) -> (r: String) {
        clone_str(self.id())
    }
}

impl Storable for DeviceIndex {
    open spec fn table_name_spec() -> Seq<char> {
        "DeviceIndex"@
    }

    open spec fn unique_id_spec(&self) -> Seq<char> {
        self.email_spec()
    }

    fn table_name() -> (r: &'static str) {
        "DeviceIndex"
    }

    fn unique_id(&self) -> (r: String) {
        clone_str(self.email())
    }
}

impl Storable for ConsoleWalletInfo {
    open spec fn table_name_spec() -> Seq<char> {
        "ConsoleWalletInfo"@
    }

    open spec fn unique_id_spec(&self) -> Seq<char> {
        self.wallet_id@
    }

    fn table_name() -> (r: &'static str) {
        "ConsoleWalletInfo"
    }

    fn unique_id(&self) -> (r: String) {
        clone_str(&self.wallet_id)
    }
}

impl Storable for WalletAccountInfo {
    open spec fn table_name_spec() -> Seq<char> {
        "WalletAccountInfo"@
    }

    open spec fn unique_id_spec(&self) -> Seq<char> {
        self.wallet_id@
    }

    fn table_name() -> (r: &'static str) {
        "WalletAccountInfo"
    }

    fn unique_id(&self) -> (r: String) {
        clone_str(&self.wallet_id)
    }
}

impl Storable for SyncedWalletInfo {
    open spec fn table_name_spec() -> Seq<char> {
        "SyncedWalletInfo"@
    }

    open spec fn unique_id_spec(&self) -> Seq<char> {
        self.id@
    }

    fn table_name() -> (r: &'static str) {
        "SyncedWalletInfo"
    }

    fn unique_id(&self) -> (r: String) {
        clone_str(&self.id)
    }
}

impl Storable for BalanceInfo {
    open spec fn table_name_spec() -> Seq<char> {
        "BalanceInfo"@
    }

    open spec fn unique_id_spec(&self) -> Seq<char> {
        self.account_spec()
    }

    fn table_name() -> (r: &'static str) {
        "BalanceInfo"
    }

    fn unique_id(&self) -> (r: String) {
        clone_str(self.account())
    }
}

impl Storable for AddressUtxoRecords {
    open spec fn table_name_spec() -> Seq<char> {
        "AddressUtxoRecords"@
    }

    open spec fn unique_id_spec(&self) -> Seq<char> {
        self.address_spec()
    }

    fn table_name() -> (r: &'static str) {
        "AddressUtxoRecords"
    }

    fn unique_id(&self) -> (r: String) {
        clone_str(self.address())
    }
}

} // verus!
