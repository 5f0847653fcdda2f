//! Wallets as the console manages them, and as they are synced back from
//! the TEE.
use vstd::prelude::*;
use crate::model::{
    chain_approvers, clone_str, clone_strs, AccountId, ApprovalChainBasic, DeviceID, Email,
    OperatorsBasic, ViewersBasic, WalletID,
};
use crate::strs::{contains_str, push_unique, union_strs, view_set, views};

verus! {

/// A wallet as created and edited through the console.
pub struct ConsoleWalletInfo {
    pub wallet_id: WalletID,
    pub wallet_name: String,
    pub created_by_device: DeviceID,
    pub backed_up_by_devices: Vec<DeviceID>,
    pub approval_chain_basic: ApprovalChainBasic,
    pub authorized_operators: OperatorsBasic,
    pub viewers: ViewersBasic,
    pub update_time: u64,
}

/// The user-provided part of a wallet to create.
pub struct CreateConsoleWalletInfo {
    pub wallet_name: String,
    pub approval_chain_basic: ApprovalChainBasic,
    pub authorized_operators: OperatorsBasic,
    pub viewers: ViewersBasic,
}

/// The user-provided part of a wallet to update (or to create under a
/// given id).
pub struct UpdateConsoleWalletInfo {
    pub wallet_id: WalletID,
    pub wallet_name: String,
    pub approval_chain_basic: ApprovalChainBasic,
    pub authorized_operators: OperatorsBasic,
    pub viewers: ViewersBasic,
}

/// The on-chain account that belongs to a wallet.
pub struct WalletAccountInfo {
    pub wallet_id: WalletID,
    pub account_address: AccountId,
}

/// A wallet as shown to console clients.
pub struct ConsoleWalletInfoForClient {
    pub wallet_id: WalletID,
    pub wallet_name: String,
    pub account_address: Option<AccountId>,
    pub created_by_device: DeviceID,
    pub backed_up_by_devices: Vec<DeviceID>,
    pub approval_chain_basic: ApprovalChainBasic,
    pub authorized_operators: OperatorsBasic,
    pub viewers: ViewersBasic,
    pub update_time: u64,
}

/// An account of a wallet, tagged with its chain.
pub enum MultiChainAccountId {
    Eth(AccountId),
    Btc(AccountId),
}

/// A wallet as the TEE last reported it.
pub struct SyncedWalletInfo {
    pub id: WalletID,
    pub approval_chain: ApprovalChainBasic,
    pub authorized_operators: OperatorsBasic,
    pub accounts: Vec<MultiChainAccountId>,
    pub config_version: u64,
}

impl WalletAccountInfo {
    pub fn new(wallet_id: WalletID, account_address: AccountId) -> (r: Self)
        ensures
            r.wallet_id == wallet_id,
            r.account_address == account_address,
    {
        WalletAccountInfo { wallet_id, account_address }
    }
}

impl ConsoleWalletInfo {
    /// Field-wise equality of two records.
    pub open spec fn same_as(&self, other: &ConsoleWalletInfo) -> bool {
        &&& self.wallet_id@ == other.wallet_id@
        &&& self.wallet_name@ == other.wallet_name@
        &&& self.created_by_device@ == other.created_by_device@
        &&& self.backed_up_by_devices@ == other.backed_up_by_devices@
        &&& self.approval_chain_basic.same_as(&other.approval_chain_basic)
        &&& self.authorized_operators.0@ == other.authorized_operators.0@
        &&& self.viewers.0@ == other.viewers.0@
        &&& self.update_time == other.update_time
    }

    /// The approvers and operators of the wallet.
    pub open spec fn participant_set(&self) -> Set<Seq<char>> {
        chain_approvers(self.approval_chain_basic.0@).to_set().union(
            self.authorized_operators.operator_set(),
        )
    }

    /// A wallet created by `created_by_device` under `wallet_id` at time
    /// `now` (seconds), backed up nowhere yet.
    pub fn new(
        created_by_device: DeviceID,
        wallet_name: String,
        approval_chain_basic: ApprovalChainBasic,
        authorized_operators: OperatorsBasic,
        viewers: ViewersBasic,
        wallet_id: WalletID,
        now: u64,
    ) -> (r: Self)
        ensures
            r.wallet_id == wallet_id,
            r.wallet_name == wallet_name,
            r.created_by_device == created_by_device,
            r.backed_up_by_devices@ == Seq::<DeviceID>::empty(),
            r.approval_chain_basic == approval_chain_basic,
            r.authorized_operators == authorized_operators,
            r.viewers == viewers,
            r.update_time == now,
    {
        ConsoleWalletInfo {
            wallet_id,
            wallet_name,
            created_by_device,
            backed_up_by_devices: Vec::new(),
            approval_chain_basic,
            authorized_operators,
            viewers,
            update_time: now,
        }
    }

    pub fn duplicate(&self) -> (r: Self)
        ensures
            r.same_as(self),
    {
        ConsoleWalletInfo {
            wallet_id: clone_str(&self.wallet_id),
            wallet_name: clone_str(&self.wallet_name),
            created_by_device: clone_str(&self.created_by_device),
            backed_up_by_devices: clone_strs(&self.backed_up_by_devices),
            approval_chain_basic: self.approval_chain_basic.duplicate(),
            authorized_operators: self.authorized_operators.duplicate(),
            viewers: self.viewers.duplicate(),
            update_time: self.update_time,
        }
    }

    /// Every approver and operator of the wallet, once each.
    pub fn distinct_participants(&self) -> (r: Vec<Email>)
        ensures
            view_set(r@) == self.participant_set(),
            views(r@).no_duplicates(),
    {
        let approvers = self.approval_chain_basic.distinct_approvers();
        let operators = self.authorized_operators.distinct_operators();
        union_strs(&approvers, &operators)
    }

    pub fn id(&self) -> (r: &WalletID)
        ensures
            r == &self.wallet_id,
    {
        &self.wallet_id
    }

    pub fn approval_chain_basic(&self) -> (r: &ApprovalChainBasic)
        ensures
            r == &self.approval_chain_basic,
    {
        &self.approval_chain_basic
    }

    pub fn authorized_operators(&self) -> (r: &OperatorsBasic)
        ensures
            r == &self.authorized_operators,
    {
        &self.authorized_operators
    }

    pub fn viewers(&self) -> (r: &ViewersBasic)
        ensures
            r == &self.viewers,
    {
        &self.viewers
    }

    pub fn can_view(&self, email: &Email) -> (r: bool)
        ensures
            r == self.viewers.viewer_set().contains(email@),
    {
        self.viewers.contains(email)
    }

    /// Replaces the name, approval chain, operators and viewers, and stamps
    /// the record with `now`; id, creator and backups stay.
    pub fn update_info(
        &mut self,
        wallet_name: &String,
        approval_chain_basic: &ApprovalChainBasic,
        authorized_operators: &OperatorsBasic,
        viewers: &ViewersBasic,
        now: u64,
    )
        ensures
            final(self).wallet_name@ == wallet_name@,
            final(self).approval_chain_basic.same_as(approval_chain_basic),
            chain_approvers(final(self).approval_chain_basic.0@) == chain_approvers(
                approval_chain_basic.0@,
            ),
            final(self).authorized_operators.0@ == authorized_operators.0@,
            final(self).viewers.0@ == viewers.0@,
            final(self).update_time == now,
            final(self).wallet_id == old(self).wallet_id,
            final(self).created_by_device == old(self).created_by_device,
            final(self).backed_up_by_devices == old(self).backed_up_by_devices,
    {
        self.wallet_name = clone_str(wallet_name);
        self.viewers = viewers.duplicate();
        self.approval_chain_basic = approval_chain_basic.duplicate();
        self.authorized_operators = authorized_operators.duplicate();
        self.update_time = now;
    }

    /// Puts back the approval chain and operators that the TEE last
    /// reported, and the config version as update time.
    pub fn revert_info(&mut self, synced_wallet_info: &SyncedWalletInfo)
        ensures
            final(self).approval_chain_basic.same_as(&synced_wallet_info.approval_chain),
            final(self).authorized_operators.0@ == synced_wallet_info.authorized_operators.0@,
            final(self).update_time == synced_wallet_info.config_version,
            final(self).wallet_id == old(self).wallet_id,
            final(self).wallet_name == old(self).wallet_name,
            final(self).created_by_device == old(self).created_by_device,
            final(self).backed_up_by_devices == old(self).backed_up_by_devices,
            final(self).viewers == old(self).viewers,
    {
        self.approval_chain_basic = synced_wallet_info.approval_chain.duplicate();
        self.authorized_operators = synced_wallet_info.authorized_operators.duplicate();
        self.update_time = synced_wallet_info.config_version;
    }

    /// Records that `device_id` holds a backup of the wallet.
    pub fn add_backup_device(&mut self, device_id: DeviceID)
        ensures
            view_set(final(self).backed_up_by_devices@) == view_set(
                old(self).backed_up_by_devices@,
            ).insert(device_id@),
            views(old(self).backed_up_by_devices@).contains(device_id@)
                ==> final(self).backed_up_by_devices@ == old(self).backed_up_by_devices@,
            !views(old(self).backed_up_by_devices@).contains(device_id@)
                ==> final(self).backed_up_by_devices@ == old(
                self,
            ).backed_up_by_devices@.push(device_id),
            final(self).wallet_id == old(self).wallet_id,
            final(self).wallet_name == old(self).wallet_name,
            final(self).created_by_device == old(self).created_by_device,
            final(self).approval_chain_basic == old(self).approval_chain_basic,
            final(self).authorized_operators == old(self).authorized_operators,
            final(self).viewers == old(self).viewers,
            final(self).update_time == old(self).update_time,
    {
        push_unique(&mut self.backed_up_by_devices, device_id);
    }

    /// The user-provided part of the record.
    pub fn into_update_info(self) -> (r: UpdateConsoleWalletInfo)
        ensures
            r.wallet_id == self.wallet_id,
            r.wallet_name == self.wallet_name,
            r.approval_chain_basic == self.approval_chain_basic,
            r.authorized_operators == self.authorized_operators,
            r.viewers == self.viewers,
    {
        UpdateConsoleWalletInfo {
            wallet_id: self.wallet_id,
            wallet_name: self.wallet_name,
            approval_chain_basic: self.approval_chain_basic,
            authorized_operators: self.authorized_operators,
            viewers: self.viewers,
        }
    }
}

impl ConsoleWalletInfoForClient {
    pub fn new(wallet_info_basic: ConsoleWalletInfo, account_address: Option<AccountId>) -> (r: Self)
        ensures
            r.wallet_id == wallet_info_basic.wallet_id,
            r.wallet_name == wallet_info_basic.wallet_name,
            r.account_address == account_address,
            r.created_by_device == wallet_info_basic.created_by_device,
            r.backed_up_by_devices == wallet_info_basic.backed_up_by_devices,
            r.approval_chain_basic == wallet_info_basic.approval_chain_basic,
            r.authorized_operators == wallet_info_basic.authorized_operators,
            r.viewers == wallet_info_basic.viewers,
            r.update_time == wallet_info_basic.update_time,
    {
        ConsoleWalletInfoForClient {
            wallet_id: wallet_info_basic.wallet_id,
            wallet_name: wallet_info_basic.wallet_name,
            account_address,
            created_by_device: wallet_info_basic.created_by_device,
            backed_up_by_devices: wallet_info_basic.backed_up_by_devices,
            approval_chain_basic: wallet_info_basic.approval_chain_basic,
            authorized_operators: wallet_info_basic.authorized_operators,
            viewers: wallet_info_basic.viewers,
            update_time: wallet_info_basic.update_time,
        }
    }
}

impl MultiChainAccountId {
    pub fn duplicate(&self) -> (r: Self)
        ensures
            r == *self,
    {
        match self {
            MultiChainAccountId::Eth(id) => MultiChainAccountId::Eth(clone_str(id)),
            MultiChainAccountId::Btc(id) => MultiChainAccountId::Btc(clone_str(id)),
        }
    }

    pub open spec fn id_spec(&self) -> AccountId {
        match self {
            MultiChainAccountId::Eth(id) => *id,
            MultiChainAccountId::Btc(id) => *id,
        }
    }

    pub fn id(&self) -> (r: &AccountId)
        ensures
            *r == self.id_spec(),
    {
        match self {
            MultiChainAccountId::Eth(id) => id,
            MultiChainAccountId::Btc(id) => id,
        }
    }
}

/// The first Bitcoin account of the list, if any.
pub open spec fn first_btc(accounts: Seq<MultiChainAccountId>) -> Option<AccountId>
    decreases accounts.len(),
{
    if accounts.len() == 0 {
        None
    } else if accounts[0] is Btc {
        Some(accounts[0].id_spec())
    } else {
        first_btc(accounts.drop_first())
    }
}

/// The first Ethereum account of the list, if any.
pub open spec fn first_eth(accounts: Seq<MultiChainAccountId>) -> Option<AccountId>
    decreases accounts.len(),
{
    if accounts.len() == 0 {
        None
    } else if accounts[0] is Eth {
        Some(accounts[0].id_spec())
    } else {
        first_eth(accounts.drop_first())
    }
}

impl SyncedWalletInfo {
    /// The users associated with the wallet: approvers and operators.
    pub open spec fn associated_set(&self) -> Set<Seq<char>> {
        chain_approvers(self.approval_chain.0@).to_set().union(
            self.authorized_operators.operator_set(),
        )
    }

    pub fn new(
        id: WalletID,
        approval_chain: ApprovalChainBasic,
        authorized_operators: OperatorsBasic,
        accounts: Vec<MultiChainAccountId>,
        config_version: u64,
    ) -> (r: Self)
        ensures
            r.id == id,
            r.approval_chain == approval_chain,
            r.authorized_operators == authorized_operators,
            r.accounts == accounts,
            r.config_version == config_version,
    {
        SyncedWalletInfo { id, approval_chain, authorized_operators, accounts, config_version }
    }

    pub fn id(&self) -> (r: &WalletID)
        ensures
            r == &self.id,
    {
        &self.id
    }

    pub fn approval_chain(&self) -> (r: &ApprovalChainBasic)
        ensures
            r == &self.approval_chain,
    {
        &self.approval_chain
    }

    pub fn accounts(&self) -> (r: &Vec<MultiChainAccountId>)
        ensures
            r == &self.accounts,
    {
        &self.accounts
    }

    pub fn is_authorized_operator(&self, user: &Email) -> (r: bool)
        ensures
            r == self.authorized_operators.operator_set().contains(user@),
    {
        self.authorized_operators.contains(user)
    }

    pub fn associated_with_user(&self, user: &Email) -> (r: bool)
        ensures
            r == self.associated_set().contains(user@),
    {
        self.is_authorized_operator(user) || self.approval_chain.contains(user)
    }

    /// The approvers and operators of the wallet, once each.
    pub fn associated_users(&self) -> (r: Vec<Email>)
        ensures
            view_set(r@) == self.associated_set(),
            views(r@).no_duplicates(),
    {
        let approvers = self.approval_chain.distinct_approvers();
        union_strs(&approvers, &self.authorized_operators.0)
    }

    /// The approvers and operators of the wallet, once each, as values of
    /// their own.
    pub fn associated_users_owned(&self) -> (r: Vec<Email>)
        ensures
            view_set(r@) == self.associated_set(),
            views(r@).no_duplicates(),
    {
        self.associated_users()
    }

    /// The first Bitcoin account of the wallet.
    pub fn btc_account(&self) -> (r: Option<AccountId>)
        ensures
            r == first_btc(self.accounts@),
    {
        let mut i: usize = 0;
        proof {
            assert(self.accounts@.skip(0) =~= self.accounts@);
        }
        while i < self.accounts.len()
            invariant
                i <= self.accounts@.len(),
                first_btc(self.accounts@) == first_btc(self.accounts@.skip(i as int)),
            decreases self.accounts@.len() - i,
        {
            proof {
                assert(self.accounts@.skip(i as int).drop_first() =~= self.accounts@.skip(
                    i as int + 1,
                ));
            }
            match &self.accounts[i] {
                MultiChainAccountId::Btc(id) => {
                    return Some(clone_str(id));
                },
                _ => {},
            }
            i = i + 1;
        }
        None
    }

    /// The first Ethereum account of the wallet.
    pub fn eth_account(&self) -> (r: Option<AccountId>)
        ensures
            r == first_eth(self.accounts@),
    {
        let mut i: usize = 0;
        proof {
            assert(self.accounts@.skip(0) =~= self.accounts@);
        }
        while i < self.accounts.len()
            invariant
                i <= self.accounts@.len(),
                first_eth(self.accounts@) == first_eth(self.accounts@.skip(i as int)),
            decreases self.accounts@.len() - i,
        {
            proof {
                assert(self.accounts@.skip(i as int).drop_first() =~= self.accounts@.skip(
                    i as int + 1,
                ));
            }
            match &self.accounts[i] {
                MultiChainAccountId::Eth(id) => {
                    return Some(clone_str(id));
                },
                _ => {},
            }
            i = i + 1;
        }
        None
    }
}

} // verus!
