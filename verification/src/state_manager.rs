//! The authority's state: users, devices, console wallets, what the TEE
//! last synced back, and the online device; and the operations of the
//! authority's console on it.
use vstd::prelude::*;
use crate::device_info::{BackupDeviceInfoBasic, DeviceInfoBasic};
use crate::device_registry::{
    backup_result, register_wallet_problem, role_problem, wallet_config_result, BackupListToSign, DeviceRegistry,
    WalletConfigToSign,
};
use crate::error::GatewayError;
use crate::export::unix_time;
use crate::model::{chain_approvers, clone_str, AccountId, CkPublicKey, DeviceID, Email, Role, UserID, WalletID, MAX_WALLET_NUM_PER_DEVICE};
use crate::strs::{view_set, views};
use crate::table::Table;
use crate::tee::{CommittedConfig, OnlineDevice, TeeConfig, TeeOnlineStatus};
use crate::user_info::{User, UserInfo};
use crate::user_registry::UserRegistry;
use crate::wallet::{ConsoleWalletInfo, CreateConsoleWalletInfo, SyncedWalletInfo, UpdateConsoleWalletInfo};

verus! {

pub struct SharedStateManager {
    user_registry: UserRegistry,
    device_registry: DeviceRegistry,
    online_device: Option<OnlineDevice>,
    synced_wallets: Table<SyncedWalletInfo>,
    committed_configs: Table<CommittedConfig>,
}

/// `base64` decoding of `text` with the standard alphabet and padding, as
/// the crate computes it: the bytes, or `None` for text it refuses.
pub uninterp spec fn base64_standard_decode(text: Seq<char>) -> Option<Seq<u8>>;

/// `base64::engine::general_purpose::STANDARD.decode`; its result is only
/// named here.
#[verifier::external_body]
fn base64_decode(text: &str) -> (r: Option<Vec<u8>>)
    ensures
        match base64_standard_decode(text@) {
            Some(b) => r matches Some(v) && v@ == b,
            None => r is None,
        },
{
    match base64::Engine::decode(&base64::engine::general_purpose::STANDARD, text) {
        Ok(v) => Some(v),
        Err(_) => None,
    }
}

/// The serialized public keys a device registers with, decoded from the
/// base64 text of the request.
pub fn decode_device_pubkeys(device_pubkeys: &str) -> (r: Result<Vec<u8>, GatewayError>)
    ensures
        match base64_standard_decode(device_pubkeys@) {
            Some(b) => r matches Ok(v) && v@ == b,
            None => r == Err::<Vec<u8>, GatewayError>(GatewayError::InvalidBase64),
        },
{
    match base64_decode(device_pubkeys) {
        Some(v) => Ok(v),
        None => Err(GatewayError::InvalidBase64),
    }
}

/// Whether every one of `emails` is a registered user.
pub fn all_users_exist(user_registry: &UserRegistry, emails: &Vec<Email>) -> (r: bool)
    ensures
        r == view_set(emails@).subset_of(user_registry.users().dom()),
{
    let mut i: usize = 0;
    while i < emails.len()
        invariant
            i <= emails@.len(),
            forall|j: int| 0 <= j < i ==> user_registry.users().contains_key(#[trigger] views(emails@)[j]),
        decreases emails@.len() - i,
    {
        proof {
            assert(views(emails@)[i as int] == emails@[i as int]@);
        }
        if !user_registry.user_exist(&emails[i]) {
            proof {
                assert(view_set(emails@).contains(emails@[i as int]@));
            }
            return false;
        }
        i = i + 1;
    }
    proof {
        assert forall|x: Seq<char>| view_set(emails@).contains(x) implies user_registry.users().contains_key(x) by {
            let j = choose|j: int| 0 <= j < views(emails@).len() && views(emails@)[j] == x;
        }
    }
    true
}


/// Everyone an edit makes an approver or an operator of the wallet.
pub open spec fn update_participants(u: UpdateConsoleWalletInfo) -> Set<Seq<char>> {
    chain_approvers(u.approval_chain_basic.0@).to_set().union(u.authorized_operators.operator_set())
}

/// Why the edit `u` of a wallet by `device` is refused, judged on the
/// wallets before any edit, the wallets the device created and the
/// registered users.
pub open spec fn update_problem(
    wallets: Map<Seq<char>, ConsoleWalletInfo>,
    created: Seq<Seq<char>>,
    device: Seq<char>,
    users: Map<Seq<char>, UserInfo>,
    u: UpdateConsoleWalletInfo,
) -> Option<GatewayError> {
    if !wallets.contains_key(u.wallet_id@) {
        Some(GatewayError::WalletNotFound)
    } else if wallets[u.wallet_id@].created_by_device@ != device {
        Some(GatewayError::WalletNotOwnedByDevice)
    } else if !created.contains(u.wallet_id@) {
        Some(GatewayError::WalletNotOwnedByDevice)
    } else if !update_participants(u).subset_of(users.dom()) {
        Some(GatewayError::UserNotFound)
    } else {
        None
    }
}

/// `after` is `before` edited by `u` at `now`: name, approval chain,
/// operators and viewers from the edit, id, creator and backups kept.
pub open spec fn updated_by(
    before: ConsoleWalletInfo,
    after: ConsoleWalletInfo,
    u: UpdateConsoleWalletInfo,
    now: u64,
) -> bool {
    &&& after.wallet_id@ == before.wallet_id@
    &&& after.created_by_device@ == before.created_by_device@
    &&& after.backed_up_by_devices@ == before.backed_up_by_devices@
    &&& after.wallet_name@ == u.wallet_name@
    &&& after.approval_chain_basic.same_as(&u.approval_chain_basic)
    &&& after.authorized_operators.0@ == u.authorized_operators.0@
    &&& after.viewers.0@ == u.viewers.0@
    &&& after.update_time == now
}

/// The position of the last of the first `k` edits that edits wallet
/// `id`; -1 when none does.
pub open spec fn last_edit(list: Seq<UpdateConsoleWalletInfo>, k: int, id: Seq<char>) -> int
    decreases k,
{
    if k <= 0 {
        -1
    } else if list[k - 1].wallet_id@ == id {
        k - 1
    } else {
        last_edit(list, k - 1, id)
    }
}

/// `after` is `before` with the first `k` edits of `list` made at `now`:
/// each edited wallet as its last edit leaves it, the others unchanged.
pub open spec fn edits_applied(
    before: Map<Seq<char>, ConsoleWalletInfo>,
    after: Map<Seq<char>, ConsoleWalletInfo>,
    list: Seq<UpdateConsoleWalletInfo>,
    k: int,
    now: u64,
) -> bool {
    &&& after.dom() == before.dom()
    &&& forall|id: Seq<char>| #[trigger] before.contains_key(id) ==> if last_edit(list, k, id) >= 0 {
        updated_by(before[id], after[id], list[last_edit(list, k, id)], now)
    } else {
        after[id] == before[id]
    }
}

pub proof fn lemma_last_edit_bounds(list: Seq<UpdateConsoleWalletInfo>, k: int, id: Seq<char>)
    requires
        0 <= k <= list.len(),
    ensures
        -1 <= last_edit(list, k, id) < k,
        last_edit(list, k, id) >= 0 ==> list[last_edit(list, k, id)].wallet_id@ == id,
    decreases k,
{
    if k > 0 && list[k - 1].wallet_id@ != id {
        lemma_last_edit_bounds(list, k - 1, id);
    }
}


/// The approvers and operators a new wallet names.
pub open spec fn create_participants(c: CreateConsoleWalletInfo) -> Set<Seq<char>> {
    chain_approvers(c.approval_chain_basic.0@).to_set().union(c.authorized_operators.operator_set())
}

/// Why registering the wallet `c` under `id` is refused, when the device
/// holds `dev` (its created and backed-up wallets; `None` when the device
/// is unknown) and `dom` are the registered wallet ids: a participant that
/// is no user, then the checks of `DeviceRegistry::register_wallet`.
pub open spec fn new_wallet_problem(
    dev: Option<(Seq<Seq<char>>, Seq<Seq<char>>)>,
    dom: Set<Seq<char>>,
    users: Map<Seq<char>, UserInfo>,
    c: CreateConsoleWalletInfo,
    id: Seq<char>,
) -> Option<GatewayError> {
    if !create_participants(c).subset_of(users.dom()) {
        Some(GatewayError::UserNotFound)
    } else {
        match dev {
            None => Some(GatewayError::DeviceNotFound),
            Some((created, backed)) => if dom.contains(id) {
                Some(GatewayError::WalletAlreadyExists)
            } else if role_problem(users, chain_approvers(c.approval_chain_basic.0@), Role::Approver, GatewayError::NotApprover) is Some {
                role_problem(users, chain_approvers(c.approval_chain_basic.0@), Role::Approver, GatewayError::NotApprover)
            } else if role_problem(users, views(c.authorized_operators.0@), Role::TxOperator, GatewayError::NotTxOperator) is Some {
                role_problem(users, views(c.authorized_operators.0@), Role::TxOperator, GatewayError::NotTxOperator)
            } else if created.len() + backed.len() >= MAX_WALLET_NUM_PER_DEVICE {
                Some(GatewayError::TooManyWallets)
            } else if created.contains(id) {
                Some(GatewayError::WalletAlreadyCreatedOnDevice)
            } else if backed.contains(id) {
                Some(GatewayError::WalletAlreadyBackedUpOnDevice)
            } else {
                None
            },
        }
    }
}


/// The created wallets of device holdings (empty when unknown).
pub open spec fn created_of(d: Option<(Seq<Seq<char>>, Seq<Seq<char>>)>) -> Seq<Seq<char>> {
    match d {
        Some((created, _)) => created,
        None => Seq::empty(),
    }
}

/// The backed-up wallets of device holdings (empty when unknown).
pub open spec fn backed_of(d: Option<(Seq<Seq<char>>, Seq<Seq<char>>)>) -> Seq<Seq<char>> {
    match d {
        Some((_, backed)) => backed,
        None => Seq::empty(),
    }
}


/// The wallets to create from edits that carry their ids.
pub open spec fn creates_of(list: Seq<UpdateConsoleWalletInfo>) -> Seq<CreateConsoleWalletInfo> {
    list.map_values(
        |u: UpdateConsoleWalletInfo|
            CreateConsoleWalletInfo {
                wallet_name: u.wallet_name,
                approval_chain_basic: u.approval_chain_basic,
                authorized_operators: u.authorized_operators,
                viewers: u.viewers,
            },
    )
}

/// The ids those edits carry.
pub open spec fn ids_of(list: Seq<UpdateConsoleWalletInfo>) -> Seq<Seq<char>> {
    list.map_values(|u: UpdateConsoleWalletInfo| u.wallet_id@)
}

/// Registering `list` under `ids`, in order, from the state (`dev`,
/// `dom`): the first refusal, and how many wallets were registered before
/// it.
pub open spec fn register_outcome(
    dev: Option<(Seq<Seq<char>>, Seq<Seq<char>>)>,
    dom: Set<Seq<char>>,
    users: Map<Seq<char>, UserInfo>,
    list: Seq<CreateConsoleWalletInfo>,
    ids: Seq<Seq<char>>,
) -> (Option<GatewayError>, nat)
    decreases list.len(),
{
    if list.len() == 0 {
        (None, 0)
    } else {
        match new_wallet_problem(dev, dom, users, list[0], ids[0]) {
            Some(e) => (Some(e), 0),
            None => {
                let (created, backed) = dev->0;
                let rest = register_outcome(
                    Some((created.push(ids[0]), backed)),
                    dom.insert(ids[0]),
                    users,
                    list.drop_first(),
                    ids.drop_first(),
                );
                (rest.0, rest.1 + 1)
            },
        }
    }
}

/// `w` is the wallet registered from `c` under `id` by `device` at `now`.
pub open spec fn built_from(w: ConsoleWalletInfo, c: CreateConsoleWalletInfo, id: Seq<char>, device: Seq<char>, now: u64) -> bool {
    &&& w.wallet_id@ == id
    &&& w.wallet_name@ == c.wallet_name@
    &&& w.created_by_device@ == device
    &&& w.backed_up_by_devices@.len() == 0
    &&& w.approval_chain_basic.same_as(&c.approval_chain_basic)
    &&& w.authorized_operators.0@ == c.authorized_operators.0@
    &&& w.viewers.0@ == c.viewers.0@
    &&& w.update_time == now
}

/// The state of the device `device` in `reg`, as `new_wallet_problem`
/// sees it.
pub open spec fn device_holdings(reg: DeviceRegistry, device: Seq<char>) -> Option<(Seq<Seq<char>>, Seq<Seq<char>>)> {
    if reg.device_map().contains_key(device) {
        Some((reg.device_map()[device].created(), reg.device_map()[device].backed_up()))
    } else {
        None
    }
}

/// The registry's own checks agree with `new_wallet_problem` once the
/// participants are known users.
proof fn lemma_register_problem(
    reg: DeviceRegistry,
    users: Map<Seq<char>, UserInfo>,
    device: Seq<char>,
    w: ConsoleWalletInfo,
    c: CreateConsoleWalletInfo,
)
    requires
        create_participants(c).subset_of(users.dom()),
        chain_approvers(w.approval_chain_basic.0@) == chain_approvers(c.approval_chain_basic.0@),
        w.authorized_operators.0@ == c.authorized_operators.0@,
    ensures
        register_wallet_problem(reg, users, device, w) == new_wallet_problem(
            device_holdings(reg, device),
            reg.wallet_map().dom(),
            users,
            c,
            w.wallet_id@,
        ),
{
}


/// A stage of an approval chain as the TEE reports it: user ids.
pub struct TaApprovalStage {
    pub threshold: u64,
    pub approvers: Vec<UserID>,
}

/// A wallet as the TEE reports it after a sync: participants by user id.
pub struct LatestWalletInfo {
    pub wallet_id: WalletID,
    pub approval_chain: Vec<TaApprovalStage>,
    pub authorized_operators: Vec<UserID>,
    pub accounts: Vec<crate::wallet::MultiChainAccountId>,
}

/// What undoing the console edits of wallet `id` does (`before` to
/// `after`) and answers: a wallet the TEE synced back gets back the
/// approval chain and operators it synced, stamped with the synced
/// version; a wallet it never synced is removed from the registry and
/// from its device's created wallets.
pub open spec fn revert_result(before: SharedStateManager, after: SharedStateManager, id: Seq<char>, r: Result<(), GatewayError>) -> bool {
    &&& !before.wallets().contains_key(id) ==> r == Err::<(), GatewayError>(GatewayError::WalletNotFound)
        && after.device_reg() == before.device_reg()
    &&& before.wallets().contains_key(id) && before.synced().contains_key(id) ==> {
        let w0 = before.wallets()[id];
        let synced = before.synced()[id];
        let w1 = after.wallets()[id];
        &&& r is Ok
        &&& after.wallets() == before.wallets().insert(id, w1)
        &&& w1.approval_chain_basic.same_as(&synced.approval_chain)
        &&& w1.authorized_operators.0@ == synced.authorized_operators.0@
        &&& w1.update_time == synced.config_version
        &&& w1.wallet_id@ == w0.wallet_id@
        &&& w1.wallet_name@ == w0.wallet_name@
        &&& w1.created_by_device@ == w0.created_by_device@
        &&& w1.backed_up_by_devices@ == w0.backed_up_by_devices@
        &&& w1.viewers.0@ == w0.viewers.0@
        &&& after.device_reg().device_map() == before.device_reg().device_map()
    }
    &&& before.wallets().contains_key(id) && !before.synced().contains_key(id) ==> {
        let dev_id = before.wallets()[id].created_by_device@;
        let devices = before.device_reg().device_map();
        &&& !devices.contains_key(dev_id) ==> r == Err::<(), GatewayError>(GatewayError::DeviceNotFound)
        &&& devices.contains_key(dev_id) && !devices[dev_id].created().contains(id) ==> r == Err::<(), GatewayError>(
            GatewayError::WalletNotOwnedByDevice,
        )
        &&& devices.contains_key(dev_id) && devices[dev_id].created().contains(id) ==> {
            let d0 = devices[dev_id];
            let d1 = after.device_reg().device_map()[dev_id];
            &&& r is Ok
            &&& after.wallets() == before.wallets().remove(id)
            &&& after.device_reg().device_map() == devices.insert(dev_id, d1)
            &&& d1.created() == d0.created().remove(d0.created().index_of(id))
            &&& d1.backed_up() == d0.backed_up()
        }
        &&& r is Err ==> after.device_reg() == before.device_reg()
    }
}

/// What registering the wallets `list` on `device`, the i-th under
/// `ids[i]`, at `now` does (`before` to `after`) and answers: wallets are
/// registered in order until one is refused (see `register_outcome`);
/// those registered stay, built from their descriptions, and the device
/// lists them as created; when none is refused, the wallets are returned
/// in order.
pub open spec fn register_result(
    before: SharedStateManager,
    after: SharedStateManager,
    device: Seq<char>,
    list: Seq<CreateConsoleWalletInfo>,
    ids: Seq<Seq<char>>,
    now: u64,
    r: Result<Vec<ConsoleWalletInfo>, GatewayError>,
) -> bool {
    let outcome = register_outcome(device_holdings(before.device_reg(), device), before.wallets().dom(), before.users(), list, ids);
    let n = outcome.1 as int;
    &&& r is Ok <==> outcome.0 is None
    &&& r matches Err(e) ==> outcome.0 == Some(e)
    &&& r matches Ok(ws) ==> ws@.len() == list.len() && n == list.len() && forall|i: int|
        0 <= i < list.len() ==> built_from(#[trigger] ws@[i], list[i], ids[i], device, now)
    &&& 0 <= n <= list.len()
    &&& after.wallets().dom() == before.wallets().dom() + ids.take(n).to_set()
    &&& forall|k: Seq<char>| #[trigger] before.wallets().contains_key(k) ==> after.wallets()[k] == before.wallets()[k]
    &&& forall|i: int| 0 <= i < n ==> built_from(after.wallets()[#[trigger] ids[i]], list[i], ids[i], device, now)
    &&& n > 0 ==> {
        let d0 = before.device_reg().device_map()[device];
        let d1 = after.device_reg().device_map()[device];
        &&& after.device_reg().device_map() == before.device_reg().device_map().insert(device, d1)
        &&& d1.created() == d0.created() + ids.take(n)
        &&& d1.backed_up() == d0.backed_up()
        &&& d1.same_identity(&d0)
    }
    &&& n == 0 ==> after.device_reg().device_map() == before.device_reg().device_map()
}

/// What editing wallets of `device` with `list` at `now` does (`before`
/// to `after`) and answers: the device must exist; the edits are made in
/// order, each checked against the wallets before any edit; the first
/// refused one stops them (those before it stay made) and gives its
/// reason; when none is refused, every wallet edited is returned, in
/// order.
pub open spec fn update_result(
    before: SharedStateManager,
    after: SharedStateManager,
    device: Seq<char>,
    list: Seq<UpdateConsoleWalletInfo>,
    now: u64,
    r: Result<Vec<ConsoleWalletInfo>, GatewayError>,
) -> bool {
    &&& !before.device_reg().device_map().contains_key(device) ==> r == Err::<Vec<ConsoleWalletInfo>, GatewayError>(
        GatewayError::DeviceNotFound,
    ) && after.wallets() == before.wallets()
    &&& before.device_reg().device_map().contains_key(device) ==> {
        let created = before.device_reg().device_map()[device].created();
        let w0 = before.wallets();
        &&& r is Ok <==> forall|i: int| 0 <= i < list.len() ==> #[trigger] update_problem(w0, created, device, before.users(), list[i]) is None
        &&& r matches Err(e) ==> exists|k: int| 0 <= k < list.len() && #[trigger] update_problem(w0, created, device, before.users(), list[k]) == Some(e)
            && (forall|j: int| 0 <= j < k ==> #[trigger] update_problem(w0, created, device, before.users(), list[j]) is None)
            && edits_applied(w0, after.wallets(), list, k, now)
        &&& r matches Ok(ws) ==> {
            &&& edits_applied(w0, after.wallets(), list, list.len() as int, now)
            &&& ws@.len() == list.len()
            &&& forall|i: int| 0 <= i < list.len() ==> updated_by(w0[list[i].wallet_id@], #[trigger] ws@[i], list[i], now)
        }
    }
}

/// What the console's operations leave as it was: the online device,
/// the wallets as the TEE synced them back, the committed configurations
/// and the wallets' accounts.
pub open spec fn keeps_tee_state(before: SharedStateManager, after: SharedStateManager) -> bool {
    &&& after.online() == before.online()
    &&& after.synced() == before.synced()
    &&& after.committed() == before.committed()
    &&& after.device_reg().account_map() == before.device_reg().account_map()
}

/// The refusal of an operation stamped with the current time when the
/// clock reads a time before the Unix epoch.
pub open spec fn clock_refused<T>(r: Result<T, GatewayError>) -> bool {
    r == Err::<T, GatewayError>(GatewayError::ClockBeforeEpoch)
}

/// The stamp of a list of backups to sign (0 for a refusal).
pub open spec fn backup_time_of(r: Result<BackupListToSign, GatewayError>) -> u64 {
    match r {
        Ok(out) => out.timestamp,
        Err(_) => 0,
    }
}

/// The version of an exported configuration (0 for a failed export).
pub open spec fn config_version_of(r: Result<WalletConfigToSign, GatewayError>) -> u64 {
    match r {
        Ok(cfg) => cfg.config_version,
        Err(_) => 0,
    }
}

/// Whether every user id of `ids` has a recorded email.
pub open spec fn uids_known(uids: Map<Seq<char>, crate::user_info::UidToEmail>, ids: Seq<String>) -> bool {
    forall|i: int| 0 <= i < ids.len() ==> uids.contains_key(#[trigger] ids[i]@)
}

/// The emails recorded for the user ids `ids`.
pub open spec fn emails_of(uids: Map<Seq<char>, crate::user_info::UidToEmail>, ids: Seq<String>) -> Seq<Seq<char>> {
    ids.map_values(|u: String| uids[u@].email@)
}

/// Whether every participant of the reported wallet has a recorded email.
pub open spec fn latest_known(uids: Map<Seq<char>, crate::user_info::UidToEmail>, w: LatestWalletInfo) -> bool {
    &&& forall|s: int| 0 <= s < w.approval_chain@.len() ==> uids_known(uids, #[trigger] w.approval_chain@[s].approvers@)
    &&& uids_known(uids, w.authorized_operators@)
}

/// `synced` is the reported wallet `w`, participants by email, at
/// `config_version`.
pub open spec fn synced_from(
    uids: Map<Seq<char>, crate::user_info::UidToEmail>,
    w: LatestWalletInfo,
    synced: SyncedWalletInfo,
    config_version: u64,
) -> bool {
    &&& synced.id@ == w.wallet_id@
    &&& synced.approval_chain.0@.len() == w.approval_chain@.len()
    &&& forall|s: int| 0 <= s < w.approval_chain@.len() ==> {
        &&& (#[trigger] synced.approval_chain.0@[s]).threshold == w.approval_chain@[s].threshold
        &&& views(synced.approval_chain.0@[s].approvers@) == emails_of(uids, w.approval_chain@[s].approvers@)
    }
    &&& views(synced.authorized_operators.0@) == emails_of(uids, w.authorized_operators@)
    &&& synced.accounts@ == w.accounts@
    &&& synced.config_version == config_version
}

impl SharedStateManager {
    /// Synced wallets are stored under their ids, committed configurations
    /// under their devices' ids.
    #[verifier::type_invariant]
    closed spec fn wf(self) -> bool {
        &&& self.synced_wallets.key_seq().no_duplicates()
        &&& self.committed_configs.key_seq().no_duplicates()
        &&& forall|k: Seq<char>| #[trigger] self.synced_wallets.map().contains_key(k)
            ==> self.synced_wallets.map()[k].id@ == k
        &&& forall|k: Seq<char>| #[trigger] self.committed_configs.map().contains_key(k)
            ==> self.committed_configs.map()[k].device_id@ == k
    }

    pub closed spec fn user_reg(&self) -> UserRegistry {
        self.user_registry
    }

    pub closed spec fn device_reg(&self) -> DeviceRegistry {
        self.device_registry
    }

    /// The device whose TEE is online, as last reported.
    pub closed spec fn online(&self) -> Option<OnlineDevice> {
        self.online_device
    }

    /// The wallets as the TEE last synced them back, by id.
    pub closed spec fn synced(&self) -> Map<Seq<char>, SyncedWalletInfo> {
        self.synced_wallets.map()
    }

    /// The configuration committed for each device, by device id.
    pub closed spec fn committed(&self) -> Map<Seq<char>, CommittedConfig> {
        self.committed_configs.map()
    }

    /// Registered users, by email.
    pub open spec fn users(&self) -> Map<Seq<char>, UserInfo> {
        self.user_reg().users()
    }

    /// Console wallets, by id.
    pub open spec fn wallets(&self) -> Map<Seq<char>, ConsoleWalletInfo> {
        self.device_reg().wallet_map()
    }

    /// A state with nothing registered.
    pub fn new() -> (r: Self)
        ensures
            r.users() == Map::<Seq<char>, UserInfo>::empty(),
            r.user_reg().uids() == Map::<Seq<char>, crate::user_info::UidToEmail>::empty(),
            r.device_reg().device_map() == Map::<Seq<char>, crate::device_info::DeviceInfo>::empty(),
            r.device_reg().index_map() == Map::<Seq<char>, crate::device_info::DeviceIndex>::empty(),
            r.wallets() == Map::<Seq<char>, ConsoleWalletInfo>::empty(),
            r.device_reg().account_map() == Map::<Seq<char>, crate::wallet::WalletAccountInfo>::empty(),
            r.online() is None,
            r.synced() == Map::<Seq<char>, SyncedWalletInfo>::empty(),
            r.committed() == Map::<Seq<char>, CommittedConfig>::empty(),
    {
        SharedStateManager {
            user_registry: UserRegistry::init(),
            device_registry: DeviceRegistry::init(),
            online_device: None,
            synced_wallets: Table::new(),
            committed_configs: Table::new(),
        }
    }

    /// Registers a user (see `UserRegistry::add_user`).
    pub fn register_user(
        &mut self,
        name: &str,
        email: &Email,
        roles: &Vec<Role>,
        public_key: CkPublicKey,
        user_id: UserID,
    ) -> (r: Result<UserInfo, GatewayError>)
        ensures
            old(self).users().contains_key(email@) <==> r is Err,
            r matches Err(e) ==> e == GatewayError::UserAlreadyExists && final(self).users() == old(self).users(),
            r matches Ok(info) ==> {
                let stored = final(self).users()[email@];
                &&& final(self).users() == old(self).users().insert(email@, stored)
                &&& info.same_as(&stored)
                &&& stored.name@ == name@
                &&& stored.email@ == email@
                &&& (forall|x: Role| stored.roles.has(x) <==> roles@.contains(x))
                &&& stored.pub_key == public_key
                &&& stored.user_id == user_id
                &&& final(self).user_reg().uids().contains_key(user_id@)
                &&& final(self).user_reg().uids()[user_id@].email@ == email@
            },
            final(self).device_reg() == old(self).device_reg(),
            keeps_tee_state(*old(self), *final(self)),
    {
        proof {
            use_type_invariant(&*self);
        }
        let mut reg = UserRegistry::init();
        std::mem::swap(&mut reg, &mut self.user_registry);
        let r = reg.add_user(name, email, roles, public_key, user_id);
        self.user_registry = reg;
        r
    }

    /// Adds roles to a user (see `UserRegistry::append_role`).
    pub fn append_role(&mut self, email: &Email, roles: &Vec<Role>) -> (r: Result<UserInfo, GatewayError>)
        ensures
            old(self).users().contains_key(email@) <==> r is Ok,
            r matches Err(e) ==> e == GatewayError::UserNotFound && final(self).users() == old(self).users(),
            r matches Ok(info) ==> {
                let stored = final(self).users()[email@];
                &&& final(self).users() == old(self).users().insert(email@, stored)
                &&& info.same_as(&stored)
                &&& (forall|x: Role| stored.roles.has(x) <==> (old(self).users()[email@].roles.has(x)
                    || roles@.contains(x)))
            },
            final(self).device_reg() == old(self).device_reg(),
            keeps_tee_state(*old(self), *final(self)),
    {
        proof {
            use_type_invariant(&*self);
        }
        let mut reg = UserRegistry::init();
        std::mem::swap(&mut reg, &mut self.user_registry);
        let r = reg.append_role(email, roles);
        self.user_registry = reg;
        r
    }

    pub fn get_user_info(&self, email: &Email) -> (r: Result<UserInfo, GatewayError>)
        ensures
            self.users().contains_key(email@) <==> r is Ok,
            r matches Ok(info) ==> info.same_as(&self.users()[email@]),
            r matches Err(e) ==> e == GatewayError::UserNotFound,
    {
        self.user_registry.get_info(email)
    }

    pub fn get_all_user_info(&self) -> (r: Vec<UserInfo>)
        ensures
            r@.len() == self.user_reg().user_seq().len(),
            forall|i: int| 0 <= i < r@.len() ==> (#[trigger] r@[i]).same_as(&self.user_reg().user_seq()[i]),
    {
        self.user_registry.get_all_info()
    }

    pub fn get_user_info_by_id(&self, user_id: &UserID) -> (r: Result<UserInfo, GatewayError>)
        ensures
            r is Ok <==> exists|i: int|
                0 <= i < self.user_reg().user_seq().len() && #[trigger] self.user_reg().user_seq()[i].user_id@
                    == user_id@,
            r matches Ok(info) ==> exists|i: int|
                0 <= i < self.user_reg().user_seq().len() && self.user_reg().user_seq()[i].user_id@ == user_id@
                    && info.same_as(&self.user_reg().user_seq()[i]),
            r matches Err(e) ==> e == GatewayError::UserNotFound,
    {
        let r = self.user_registry.get_user_info_by_id(user_id);
        proof {
            let seq = self.user_reg().user_seq();
            if r is Ok {
                let i = choose|i: int|
                    0 <= i < self.user_registry.user_seq().len() && #[trigger] self.user_registry.user_seq()[i].user_id@
                        == user_id@;
                assert(seq[i].user_id@ == user_id@);
            }
            if exists|i: int| 0 <= i < seq.len() && #[trigger] seq[i].user_id@ == user_id@ {
                let i = choose|i: int| 0 <= i < seq.len() && #[trigger] seq[i].user_id@ == user_id@;
                assert(self.user_registry.user_seq()[i].user_id@ == user_id@);
            }
            if r is Ok {
                let info = r->Ok_0;
                let i = choose|i: int|
                    0 <= i < self.user_registry.user_seq().len() && self.user_registry.user_seq()[i].user_id@ == user_id@
                        && info.same_as(&self.user_registry.user_seq()[i]) && forall|j: int| 0 <= j < i ==> #[trigger] self.user_registry.user_seq()[j].user_id@ != user_id@;
                assert(seq[i].user_id@ == user_id@ && info.same_as(&seq[i]));
            }
        }
        r
    }
    /// Registers a device of `email` (see `DeviceRegistry::register_device`),
    /// stamped with the current time.
    pub fn register_device(
        &mut self,
        email: &Email,
        signing_pubkey: CkPublicKey,
        backup_pubkey: CkPublicKey,
        device_id: DeviceID,
        device_tee_cert: Vec<u8>,
    ) -> (r: Result<DeviceInfoBasic, GatewayError>)
        ensures
            clock_refused(r) ==> *final(self) == *old(self),
            !clock_refused(r) ==> (r is Err <==> old(self).device_reg().device_registered(device_id@)),
            r matches Err(e) ==> e == GatewayError::ClockBeforeEpoch || (e == GatewayError::DeviceAlreadyRegistered
                && final(self).device_reg() == old(self).device_reg()),
            r matches Ok(basic) ==> {
                let dev = final(self).device_reg().device_map()[device_id@];
                &&& final(self).device_reg().device_map() == old(self).device_reg().device_map().insert(device_id@, dev)
                &&& dev.owner_spec() == email@
                &&& dev.id_spec() == device_id@
                &&& dev.signing_pubkey_spec() == signing_pubkey.0@
                &&& dev.backup_pubkey_spec() == backup_pubkey.0@
                &&& dev.cert_spec() == device_tee_cert@
                &&& dev.created().len() == 0
                &&& dev.backed_up().len() == 0
                &&& final(self).device_reg().index_map().contains_key(email@)
                &&& final(self).device_reg().index_map()[email@].devices().contains(device_id@)
                &&& basic.owner@ == email@
                &&& basic.id@ == device_id@
                &&& basic.register_time == dev.register_time_spec()
            },
            final(self).wallets() == old(self).wallets(),
            final(self).user_reg() == old(self).user_reg(),
            keeps_tee_state(*old(self), *final(self)),
    {
        proof {
            use_type_invariant(&*self);
        }
        let now = match unix_time() {
            Some(t) => t,
            None => {
                return Err(GatewayError::ClockBeforeEpoch);
            },
        };
        let mut reg = DeviceRegistry::init();
        std::mem::swap(&mut reg, &mut self.device_registry);
        let ghost did = device_id@;
        let r = reg.register_device(email, signing_pubkey, backup_pubkey, device_id, device_tee_cert, now);
        proof {
            if r is Ok {
                let idx = reg.index_map()[email@];
                if old(self).device_reg().index_map().contains_key(email@) {
                    assert(idx.devices()[idx.devices().len() - 1] == did);
                } else {
                    assert(idx.devices()[0] == did);
                }
            }
        }
        self.device_registry = reg;
        r
    }

    /// Whether `user` may act on `device_id`: administrators may act on
    /// every device, other users on their own.
    pub fn user_can_operate_on_device(&self, user: &User, device_id: &DeviceID) -> (r: bool)
        ensures
            r == (user.info_spec().roles.has(Role::Admin) || (self.device_reg().index_map().contains_key(
                user.info_spec().email@,
            ) && self.device_reg().index_map()[user.info_spec().email@].devices().contains(device_id@))),
    {
        if user.get_info().is_admin() {
            return true;
        }
        self.device_registry.device_exist_for_user(user.get_info().get_email(), device_id)
    }

    /// The certificate of `device_id`, to be exported.
    pub fn export_device_cert(&self, device_id: &DeviceID) -> (r: Result<Vec<u8>, GatewayError>)
        ensures
            r is Ok <==> self.device_reg().device_map().contains_key(device_id@),
            r matches Ok(cert) ==> cert@ == self.device_reg().device_map()[device_id@].cert_spec(),
            r matches Err(e) ==> e == GatewayError::DeviceNotFound,
    {
        self.device_registry.export_device_cert(device_id)
    }

    /// Gives `device_id` the newly issued certificate `device_tee_cert` and
    /// returns it, to be exported.
    pub fn refresh_device_cert(&mut self, device_id: &DeviceID, device_tee_cert: Vec<u8>) -> (r: Result<Vec<u8>, GatewayError>)
        ensures
            r is Ok <==> old(self).device_reg().device_map().contains_key(device_id@),
            r matches Err(e) ==> e == GatewayError::DeviceNotFound && final(self).device_reg() == old(self).device_reg(),
            r matches Ok(cert) ==> {
                let dev = final(self).device_reg().device_map()[device_id@];
                &&& cert@ == device_tee_cert@
                &&& final(self).device_reg().device_map() == old(self).device_reg().device_map().insert(device_id@, dev)
                &&& dev.cert_spec() == device_tee_cert@
                &&& dev.same_except_cert(&old(self).device_reg().device_map()[device_id@])
            },
            final(self).wallets() == old(self).wallets(),
            final(self).user_reg() == old(self).user_reg(),
            final(self).device_reg().index_map() == old(self).device_reg().index_map(),
            keeps_tee_state(*old(self), *final(self)),
    {
        proof {
            use_type_invariant(&*self);
        }
        let mut reg = DeviceRegistry::init();
        std::mem::swap(&mut reg, &mut self.device_registry);
        let r = reg.refresh_device_cert(device_id, device_tee_cert);
        self.device_registry = reg;
        r
    }

    /// Lets a device take backups of wallets of `from_device` (see
    /// `DeviceRegistry::export_backup_device_list`), stamped with the
    /// current time; returns what the CA signs.
    pub fn authorize_backup_device(
        &mut self,
        from_device: &DeviceID,
        backup_info: &BackupDeviceInfoBasic,
    ) -> (r: Result<BackupListToSign, GatewayError>)
        ensures
            clock_refused(r) ==> *final(self) == *old(self),
            !clock_refused(r) ==> backup_result(
                old(self).device_reg(),
                final(self).device_reg(),
                from_device@,
                *backup_info,
                backup_time_of(r),
                r,
            ),
            final(self).user_reg() == old(self).user_reg(),
            final(self).device_reg().index_map() == old(self).device_reg().index_map(),
            keeps_tee_state(*old(self), *final(self)),
    {
        proof {
            use_type_invariant(&*self);
        }
        let now = match unix_time() {
            Some(t) => t,
            None => {
                return Err(GatewayError::ClockBeforeEpoch);
            },
        };
        let mut reg = DeviceRegistry::init();
        std::mem::swap(&mut reg, &mut self.device_registry);
        let r = reg.export_backup_device_list(from_device, backup_info, now);
        self.device_registry = reg;
        r
    }

    /// The public part of `device_id`.
    pub fn get_device_info(&self, device_id: &DeviceID) -> (r: Result<DeviceInfoBasic, GatewayError>)
        ensures
            r is Ok <==> self.device_reg().device_map().contains_key(device_id@),
            r matches Ok(b) ==> {
                let dev = self.device_reg().device_map()[device_id@];
                &&& b.owner@ == dev.owner_spec()
                &&& b.id@ == dev.id_spec()
                &&& b.register_time == dev.register_time_spec()
                &&& views(b.created_wallets@) == dev.created()
                &&& views(b.backed_up_wallets@) == dev.backed_up()
            },
            r matches Err(e) ==> e == GatewayError::DeviceNotFound,
    {
        match self.device_registry.get_device_info(device_id) {
            Some(info) => Ok(info),
            None => Err(GatewayError::DeviceNotFound),
        }
    }

    /// Records what the TEE of the online device reported.
    pub fn put_online_device(&mut self, online_device: OnlineDevice)
        ensures
            final(self).online() == Some(online_device),
            final(self).user_reg() == old(self).user_reg(),
            final(self).device_reg() == old(self).device_reg(),
            final(self).synced() == old(self).synced(),
            final(self).committed() == old(self).committed(),
    {
        proof {
            use_type_invariant(&*self);
        }
        self.online_device = Some(online_device);
    }

    /// Forgets the online device (its TEE could not be reached).
    pub fn remove_online_device(&mut self)
        ensures
            final(self).online() is None,
            final(self).user_reg() == old(self).user_reg(),
            final(self).device_reg() == old(self).device_reg(),
            final(self).synced() == old(self).synced(),
            final(self).committed() == old(self).committed(),
    {
        proof {
            use_type_invariant(&*self);
        }
        self.online_device = None;
    }

    /// The device whose TEE is online.
    pub fn get_current_online_device(&self) -> (r: Result<DeviceID, GatewayError>)
        ensures
            match self.online() {
                Some(d) => r matches Ok(id) && id@ == d.device_id@,
                None => r == Err::<DeviceID, GatewayError>(GatewayError::NoOnlineDevice),
            },
    {
        match &self.online_device {
            Some(info) => Ok(info.device_id()),
            None => Err(GatewayError::NoOnlineDevice),
        }
    }

    /// The status of `device_id`'s TEE, when it is the online device.
    pub fn get_tee_status(&self, device_id: &DeviceID) -> (r: Option<TeeOnlineStatus>)
        ensures
            match self.online() {
                Some(d) => if d.device_id@ == device_id@ {
                    r == Some(d.status)
                } else {
                    r is None
                },
                None => r is None,
            },
    {
        match &self.online_device {
            Some(info) => {
                if info.device_id.eq(device_id) {
                    Some(*info.status())
                } else {
                    None
                }
            },
            None => None,
        }
    }

    /// Records a wallet as the TEE synced it back.
    pub fn put_synced_wallet(&mut self, wallet: SyncedWalletInfo)
        ensures
            final(self).synced() == old(self).synced().insert(wallet.id@, wallet),
            final(self).user_reg() == old(self).user_reg(),
            final(self).device_reg() == old(self).device_reg(),
            final(self).online() == old(self).online(),
            final(self).committed() == old(self).committed(),
    {
        proof {
            use_type_invariant(&*self);
        }
        let mut t = Table::new();
        std::mem::swap(&mut t, &mut self.synced_wallets);
        let ghost before = t.map();
        let ghost w = wallet;
        t.insert(clone_str(&wallet.id), wallet);
        proof {
            assert forall|k: Seq<char>| #[trigger] t.map().contains_key(k) implies t.map()[k].id@ == k by {
                if k != w.id@ {
                    assert(before.contains_key(k));
                }
            }
        }
        self.synced_wallets = t;
    }

    /// The first account of the wallet as the TEE synced it back; none
    /// when the wallet was not synced or has no account.
    pub fn get_wallet_address(&self, wallet_id: &WalletID) -> (r: Option<AccountId>)
        ensures
            !self.synced().contains_key(wallet_id@) ==> r is None,
            self.synced().contains_key(wallet_id@) ==> {
                let accounts = self.synced()[wallet_id@].accounts@;
                &&& accounts.len() == 0 ==> r is None
                &&& accounts.len() > 0 ==> r == Some(accounts[0].id_spec())
            },
    {
        match self.synced_wallets.get(wallet_id) {
            Some(info) => {
                if info.accounts.len() == 0 {
                    None
                } else {
                    Some(clone_str(info.accounts[0].id()))
                }
            },
            None => None,
        }
    }

    /// A copy of the console wallet `wallet_id`.
    pub fn get_wallet_info(&self, wallet_id: &WalletID) -> (r: Result<ConsoleWalletInfo, GatewayError>)
        ensures
            r is Ok <==> self.wallets().contains_key(wallet_id@),
            r matches Ok(w) ==> w.same_as(&self.wallets()[wallet_id@]) && w.wallet_id@ == wallet_id@,
            r matches Err(e) ==> e == GatewayError::WalletNotFound,
    {
        match self.device_registry.get_wallet_info(wallet_id) {
            Some(w) => Ok(w),
            None => Err(GatewayError::WalletNotFound),
        }
    }

    /// Copies of the wallets of `device_id`: the created ones, then the
    /// backed-up ones; fails when the device or one of them is unknown.
    pub fn get_all_wallet_info(&self, device_id: &DeviceID) -> (r: Result<Vec<ConsoleWalletInfo>, GatewayError>)
        ensures
            !self.device_reg().device_map().contains_key(device_id@) ==> r == Err::<Vec<ConsoleWalletInfo>, GatewayError>(
                GatewayError::DeviceNotFound,
            ),
            self.device_reg().device_map().contains_key(device_id@) ==> {
                let dev = self.device_reg().device_map()[device_id@];
                let ids = dev.created() + dev.backed_up();
                &&& r is Ok <==> (forall|i: int| 0 <= i < ids.len() ==> self.wallets().contains_key(#[trigger] ids[i]))
                &&& r matches Err(e) ==> e == GatewayError::WalletNotFound
                &&& r matches Ok(ws) ==> ws@.len() == ids.len() && forall|i: int| 0 <= i < ids.len() ==> (
                #[trigger] ws@[i]).same_as(&self.wallets()[ids[i]]) && ws@[i].wallet_id@ == ids[i]
            },
    {
        let ids = match self.device_registry.get_wallet_id_associated_with_device(device_id) {
            Ok(ids) => ids,
            Err(e) => {
                return Err(e);
            },
        };
        let ghost idv = views(ids@);
        let mut out: Vec<ConsoleWalletInfo> = Vec::new();
        let mut i: usize = 0;
        while i < ids.len()
            invariant
                i <= ids@.len(),
                idv == views(ids@),
                self.device_reg().device_map().contains_key(device_id@),
                idv == self.device_reg().device_map()[device_id@].created() + self.device_reg().device_map()[device_id@].backed_up(),
                out@.len() == i,
                forall|j: int| 0 <= j < i ==> self.wallets().contains_key(#[trigger] idv[j]),
                forall|j: int| 0 <= j < i ==> (#[trigger] out@[j]).same_as(&self.wallets()[idv[j]]) && out@[j].wallet_id@ == idv[j],
            decreases ids@.len() - i,
        {
            proof {
                assert(idv[i as int] == ids@[i as int]@);
            }
            match self.device_registry.get_wallet_info(&ids[i]) {
                Some(w) => {
                    out.push(w);
                },
                None => {
                    return Err(GatewayError::WalletNotFound);
                },
            }
            i = i + 1;
        }
        Ok(out)
    }

    /// Undoes console edits the TEE never took: a wallet the TEE synced
    /// back gets back the approval chain and operators it synced; a wallet
    /// it never synced is removed (see `DeviceRegistry::remove_wallet`).
    pub fn revert_wallet_info(&mut self, wallet_id: &WalletID) -> (r: Result<(), GatewayError>)
        ensures
            revert_result(*old(self), *final(self), wallet_id@, r),
            final(self).user_reg() == old(self).user_reg(),
            final(self).device_reg().index_map() == old(self).device_reg().index_map(),
            keeps_tee_state(*old(self), *final(self)),
    {
        proof {
            use_type_invariant(&*self);
        }
        let mut wallet = match self.device_registry.get_wallet_info(wallet_id) {
            Some(w) => w,
            None => {
                return Err(GatewayError::WalletNotFound);
            },
        };
        match self.synced_wallets.get(wallet_id) {
            Some(synced) => {
                wallet.revert_info(synced);
                let mut reg = DeviceRegistry::init();
                std::mem::swap(&mut reg, &mut self.device_registry);
                proof {
                    assert(wallet.wallet_id@ == wallet_id@);
                }
                reg.save_wallet_info(wallet);
                self.device_registry = reg;
                Ok(())
            },
            None => {
                if self.get_wallet_address(wallet_id).is_some() {
                    return Err(GatewayError::WalletNotSynced);
                }
                let mut reg = DeviceRegistry::init();
                std::mem::swap(&mut reg, &mut self.device_registry);
                let r = reg.remove_wallet(wallet_id);
                self.device_registry = reg;
                r
            },
        }
    }

    /// What the CA signs as the configuration of `device_id` (see
    /// `DeviceRegistry::export_wallet_info`), with version `config_version`.
    pub fn sync_config_at(&self, device_id: &DeviceID, config_version: u64) -> (r: Result<WalletConfigToSign, GatewayError>)
        ensures
            wallet_config_result(self.device_reg(), self.users(), device_id@, config_version, r),
    {
        self.device_registry.export_wallet_info(&self.user_registry, device_id, config_version)
    }

    /// The configuration of `device_id` to sign, versioned by the current
    /// time (seconds).
    pub fn sync_config(&self, device_id: &DeviceID) -> (r: Result<WalletConfigToSign, GatewayError>)
        ensures
            !clock_refused(r) ==> wallet_config_result(self.device_reg(), self.users(), device_id@, config_version_of(r), r),
    {
        let now = match unix_time() {
            Some(t) => t,
            None => {
                return Err(GatewayError::ClockBeforeEpoch);
            },
        };
        self.sync_config_at(device_id, now)
    }

    /// Stores the signed configuration of `device_id`, committed at
    /// `timestamp`, for its TEE to take.
    pub fn commit_config(&mut self, device_id: &DeviceID, signed_config: TeeConfig, timestamp: u64)
        ensures
            final(self).committed().contains_key(device_id@),
            final(self).committed()[device_id@].device_id@ == device_id@,
            final(self).committed()[device_id@].timestamp == timestamp,
            final(self).committed()[device_id@].signed_config == signed_config,
            final(self).committed().remove(device_id@) == old(self).committed().remove(device_id@),
            final(self).user_reg() == old(self).user_reg(),
            final(self).device_reg() == old(self).device_reg(),
            final(self).online() == old(self).online(),
            final(self).synced() == old(self).synced(),
    {
        proof {
            use_type_invariant(&*self);
        }
        let config = CommittedConfig::new(clone_str(device_id), timestamp, signed_config);
        let mut t = Table::new();
        std::mem::swap(&mut t, &mut self.committed_configs);
        let ghost before = t.map();
        t.insert(clone_str(device_id), config);
        proof {
            assert forall|k: Seq<char>| #[trigger] t.map().contains_key(k) implies t.map()[k].device_id@ == k by {
                if k != device_id@ {
                    assert(before.contains_key(k));
                }
            }
            assert(t.map().remove(device_id@) =~= before.remove(device_id@));
        }
        self.committed_configs = t;
    }

    /// The configuration committed for `device_id`, if any.
    pub fn get_committed_config(&self, device_id: &DeviceID) -> (r: Option<CommittedConfig>)
        ensures
            r is Some <==> self.committed().contains_key(device_id@),
            r matches Some(c) ==> c.device_id@ == self.committed()[device_id@].device_id@ && c.timestamp
                == self.committed()[device_id@].timestamp && c.signed_config.config_version
                == self.committed()[device_id@].signed_config.config_version
                && c.signed_config.signed_payload@ == self.committed()[device_id@].signed_config.signed_payload@,
    {
        match self.committed_configs.get(device_id) {
            Some(c) => Some(c.duplicate()),
            None => None,
        }
    }
    /// Edits wallets created by `device_id`, in order, at `now`: each edit
    /// names an existing wallet that the device created (by the wallet's
    /// record and by the device's list), and every approver and operator it
    /// names is a registered user. Edits are saved one by one: when one is
    /// refused, the edits before it stay.
    pub fn update_wallet_info_at(
        &mut self,
        device_id: &DeviceID,
        update_wallet_info_list: &Vec<UpdateConsoleWalletInfo>,
        now: u64,
    ) -> (r: Result<Vec<ConsoleWalletInfo>, GatewayError>)
        ensures
            update_result(*old(self), *final(self), device_id@, update_wallet_info_list@, now, r),
            final(self).device_reg().device_map() == old(self).device_reg().device_map(),
            final(self).device_reg().index_map() == old(self).device_reg().index_map(),
            final(self).device_reg().account_map() == old(self).device_reg().account_map(),
            final(self).user_reg() == old(self).user_reg(),
            final(self).synced() == old(self).synced(),
            final(self).committed() == old(self).committed(),
            final(self).online() == old(self).online(),
    {
        proof {
            use_type_invariant(&*self);
        }
        let created: Vec<WalletID> = match self.device_registry.get_device_info(device_id) {
            Some(info) => info.created_wallets,
            None => {
                return Err(GatewayError::DeviceNotFound);
            },
        };
        let ghost w0 = self.wallets();
        let ghost users = self.users();
        let ghost created_v = self.device_reg().device_map()[device_id@].created();
        let ghost list = update_wallet_info_list@;
        let mut out: Vec<ConsoleWalletInfo> = Vec::new();
        let mut i: usize = 0;
        proof {
            assert forall|id: Seq<char>| #[trigger] w0.contains_key(id) implies last_edit(list, 0, id) < 0 by {}
        }
        while i < update_wallet_info_list.len()
            invariant
                i <= list.len(),
                list == update_wallet_info_list@,
                out@.len() == i,
                views(created@) == created_v,
                old(self).device_reg().device_map().contains_key(device_id@),
                created_v == old(self).device_reg().device_map()[device_id@].created(),
                w0 == old(self).wallets(),
                users == old(self).users(),
                self.device_reg().device_map() == old(self).device_reg().device_map(),
                self.device_reg().index_map() == old(self).device_reg().index_map(),
                self.device_reg().account_map() == old(self).device_reg().account_map(),
                self.user_reg() == old(self).user_reg(),
                self.synced() == old(self).synced(),
                self.committed() == old(self).committed(),
                self.online() == old(self).online(),
                edits_applied(w0, self.wallets(), list, i as int, now),
                forall|j: int| 0 <= j < i ==> #[trigger] update_problem(w0, created_v, device_id@, users, list[j]) is None,
                forall|j: int| 0 <= j < i ==> updated_by(w0[list[j].wallet_id@], #[trigger] out@[j], list[j], now),
            decreases list.len() - i,
        {
            let u = &update_wallet_info_list[i];
            let ghost id = u.wallet_id@;
            proof {
                lemma_last_edit_bounds(list, i as int, id);
            }
            let mut w = match self.device_registry.get_wallet_info(&u.wallet_id) {
                Some(w) => w,
                None => {
                    proof {
                        assert(!w0.contains_key(id));
                        assert(update_problem(w0, created_v, device_id@, users, list[i as int]) == Some(GatewayError::WalletNotFound));
                    }
                    return Err(GatewayError::WalletNotFound);
                },
            };
            proof {
                assert(w0.contains_key(id));
                assert(w.created_by_device@ == w0[id].created_by_device@);
                assert(w.backed_up_by_devices@ == w0[id].backed_up_by_devices@);
            }
            if !w.created_by_device.eq(device_id) {
                proof {
                    assert(update_problem(w0, created_v, device_id@, users, list[i as int]) == Some(GatewayError::WalletNotOwnedByDevice));
                }
                return Err(GatewayError::WalletNotOwnedByDevice);
            }
            if !crate::strs::contains_str(&created, &w.wallet_id) {
                proof {
                    assert(update_problem(w0, created_v, device_id@, users, list[i as int]) == Some(GatewayError::WalletNotOwnedByDevice));
                }
                return Err(GatewayError::WalletNotOwnedByDevice);
            }
            let ghost w_before = w;
            w.update_info(&u.wallet_name, &u.approval_chain_basic, &u.authorized_operators, &u.viewers, now);
            let participants = w.distinct_participants();
            proof {
                assert(w.participant_set() =~= update_participants(*u));
            }
            if !all_users_exist(&self.user_registry, &participants) {
                proof {
                    assert(update_problem(w0, created_v, device_id@, users, list[i as int]) == Some(GatewayError::UserNotFound));
                }
                return Err(GatewayError::UserNotFound);
            }
            let saved = w.duplicate();
            proof {
                crate::device_registry::lemma_chain_same_as_trans(saved.approval_chain_basic, w.approval_chain_basic, u.approval_chain_basic);
                assert(updated_by(w0[id], saved, list[i as int], now));
                assert(updated_by(w0[id], w, list[i as int], now));
            }
            proof {
                use_type_invariant(&*self);
            }
            let mut reg = DeviceRegistry::init();
            std::mem::swap(&mut reg, &mut self.device_registry);
            reg.save_wallet_info(saved);
            self.device_registry = reg;
            out.push(w);
            proof {
                assert forall|x: Seq<char>| #[trigger] w0.contains_key(x) implies if last_edit(list, i as int + 1, x) >= 0 {
                    updated_by(w0[x], self.wallets()[x], list[last_edit(list, i as int + 1, x)], now)
                } else {
                    self.wallets()[x] == w0[x]
                } by {
                    if x != id {
                        assert(last_edit(list, i as int + 1, x) == last_edit(list, i as int, x));
                    }
                }
                assert(self.wallets().dom() =~= w0.dom());
            }
            i = i + 1;
        }
        Ok(out)
    }

    /// Edits wallets created by `device_id` (see `update_wallet_info_at`),
    /// stamped with the current time.
    pub fn update_wallet_info(
        &mut self,
        device_id: &DeviceID,
        update_wallet_info_list: &Vec<UpdateConsoleWalletInfo>,
    ) -> (r: Result<Vec<ConsoleWalletInfo>, GatewayError>)
        ensures
            clock_refused(r) ==> *final(self) == *old(self),
            !clock_refused(r) ==> exists|now: u64|
                update_result(*old(self), *final(self), device_id@, update_wallet_info_list@, now, r),
            final(self).device_reg().device_map() == old(self).device_reg().device_map(),
            final(self).device_reg().index_map() == old(self).device_reg().index_map(),
            final(self).user_reg() == old(self).user_reg(),
            keeps_tee_state(*old(self), *final(self)),
    {
        let now = match unix_time() {
            Some(t) => t,
            None => {
                return Err(GatewayError::ClockBeforeEpoch);
            },
        };
        let r = self.update_wallet_info_at(device_id, update_wallet_info_list, now);
        proof {
            assert(update_result(*old(self), *self, device_id@, update_wallet_info_list@, now, r));
        }
        r
    }
    /// Registers the wallets `list` on `device_id`, the i-th under
    /// `wallet_ids[i]`, in order, at `now`: each must name registered users
    /// only and pass `DeviceRegistry::register_wallet`. Wallets are
    /// registered one by one: when one is refused, those before it stay.
    pub fn register_wallets_at(
        &mut self,
        device_id: &DeviceID,
        create_wallet_info_list: &Vec<CreateConsoleWalletInfo>,
        wallet_ids: &Vec<WalletID>,
        now: u64,
    ) -> (r: Result<Vec<ConsoleWalletInfo>, GatewayError>)
        requires
            wallet_ids@.len() == create_wallet_info_list@.len(),
        ensures
            register_result(*old(self), *final(self), device_id@, create_wallet_info_list@, views(wallet_ids@), now, r),
            !clock_refused(r),
            final(self).device_reg().index_map() == old(self).device_reg().index_map(),
            final(self).device_reg().account_map() == old(self).device_reg().account_map(),
            final(self).user_reg() == old(self).user_reg(),
            final(self).synced() == old(self).synced(),
            final(self).committed() == old(self).committed(),
            final(self).online() == old(self).online(),
    {
        proof {
            use_type_invariant(&*self);
        }
        let ghost users = self.users();
        let ghost list = create_wallet_info_list@;
        let ghost ids = views(wallet_ids@);
        let ghost dev0 = device_holdings(self.device_reg(), device_id@);
        let ghost dom0 = self.wallets().dom();
        let ghost w0 = self.wallets();
        let ghost dmap0 = self.device_reg().device_map();
        let ghost outcome = register_outcome(dev0, dom0, users, list, ids);
        let mut out: Vec<ConsoleWalletInfo> = Vec::new();
        let mut i: usize = 0;
        proof {
            assert(list.skip(0) =~= list);
            assert(ids.skip(0) =~= ids);
            assert(ids.take(0).to_set() =~= Set::<Seq<char>>::empty());
            assert(dom0 + ids.take(0).to_set() =~= dom0);
            if dev0 is Some {
                assert(created_of(dev0) + ids.take(0) =~= created_of(dev0));
            }
        }
        while i < create_wallet_info_list.len()
            invariant
                i <= list.len(),
                list == create_wallet_info_list@,
                ids == views(wallet_ids@),
                ids.len() == list.len(),
                out@.len() == i,
                users == old(self).users(),
                dev0 == device_holdings(old(self).device_reg(), device_id@),
                dom0 == old(self).wallets().dom(),
                w0 == old(self).wallets(),
                dmap0 == old(self).device_reg().device_map(),
                outcome == register_outcome(dev0, dom0, users, list, ids),
                ({
                    let rest = register_outcome(
                        if i == 0 { dev0 } else { Some((created_of(dev0) + ids.take(i as int), backed_of(dev0))) },
                        dom0 + ids.take(i as int).to_set(),
                        users,
                        list.skip(i as int),
                        ids.skip(i as int),
                    );
                    &&& outcome.0 == rest.0
                    &&& outcome.1 == rest.1 + i
                }),
                i > 0 ==> dev0 is Some,
                self.wallets().dom() == dom0 + ids.take(i as int).to_set(),
                forall|k: Seq<char>| #[trigger] w0.contains_key(k) ==> self.wallets()[k] == w0[k],
                forall|j: int| 0 <= j < i ==> built_from(self.wallets()[#[trigger] ids[j]], list[j], ids[j], device_id@, now),
                forall|j: int| 0 <= j < i ==> built_from(#[trigger] out@[j], list[j], ids[j], device_id@, now),
                i > 0 ==> {
                    let dev = self.device_reg().device_map()[device_id@];
                    &&& self.device_reg().device_map() == dmap0.insert(device_id@, dev)
                    &&& dev.created() == dmap0[device_id@].created() + ids.take(i as int)
                    &&& dev.backed_up() == dmap0[device_id@].backed_up()
                    &&& dev.same_identity(&dmap0[device_id@])
                },
                i == 0 ==> self.device_reg().device_map() == dmap0,
                self.device_reg().index_map() == old(self).device_reg().index_map(),
                self.device_reg().account_map() == old(self).device_reg().account_map(),
                self.user_reg() == old(self).user_reg(),
                self.synced() == old(self).synced(),
                self.committed() == old(self).committed(),
                self.online() == old(self).online(),
            decreases list.len() - i,
        {
            let c = &create_wallet_info_list[i];
            let ghost id = ids[i as int];
            let ghost dev_i = if i == 0 { dev0 } else { Some((created_of(dev0) + ids.take(i as int), backed_of(dev0))) };
            let ghost dom_i = dom0 + ids.take(i as int).to_set();
            proof {
                assert(list.skip(i as int)[0] == *c);
                assert(ids.skip(i as int)[0] == id);
                assert(id == wallet_ids@[i as int]@);
                assert(device_holdings(self.device_reg(), device_id@) == dev_i);
                assert(self.wallets().dom() == dom_i);
            }
            let wallet = ConsoleWalletInfo::new(
                clone_str(device_id),
                clone_str(&c.wallet_name),
                c.approval_chain_basic.duplicate(),
                c.authorized_operators.duplicate(),
                c.viewers.duplicate(),
                clone_str(&wallet_ids[i]),
                now,
            );
            let participants = wallet.distinct_participants();
            proof {
                assert(wallet.participant_set() =~= create_participants(*c));
            }
            if !all_users_exist(&self.user_registry, &participants) {
                proof {
                    assert(new_wallet_problem(dev_i, dom_i, users, *c, id) == Some(GatewayError::UserNotFound));
                }
                return Err(GatewayError::UserNotFound);
            }
            proof {
                lemma_register_problem(self.device_reg(), users, device_id@, wallet, *c);
                use_type_invariant(&*self);
            }
            let ghost before_wallets = self.wallets();
            let ghost before_dmap = self.device_reg().device_map();
            let mut reg = DeviceRegistry::init();
            std::mem::swap(&mut reg, &mut self.device_registry);
            let registered = reg.register_wallet(&self.user_registry, device_id, &wallet);
            self.device_registry = reg;
            match registered {
                Ok(_) => {},
                Err(e) => {
                    return Err(e);
                },
            }
            proof {
                let rest = register_outcome(dev_i, dom_i, users, list.skip(i as int), ids.skip(i as int));
                assert(list.skip(i as int).drop_first() =~= list.skip(i as int + 1));
                assert(ids.skip(i as int).drop_first() =~= ids.skip(i as int + 1));
                assert(ids.take(i as int + 1) =~= ids.take(i as int).push(id));
                crate::model::lemma_seq_push_to_set(ids.take(i as int), id);
                assert(dom0 + ids.take(i as int + 1).to_set() =~= dom_i.insert(id));
                if i == 0 {
                    assert(created_of(dev0) + ids.take(1) =~= created_of(dev0).push(id));
                } else {
                    assert(created_of(dev0) + ids.take(i as int + 1) =~= (created_of(dev0) + ids.take(i as int)).push(id));
                }
                assert(self.wallets().dom() =~= dom0 + ids.take(i as int + 1).to_set());
                assert forall|k: Seq<char>| #[trigger] w0.contains_key(k) implies self.wallets()[k] == w0[k] by {
                    assert(k != id);
                }
                assert forall|j: int| 0 <= j < i + 1 implies built_from(self.wallets()[#[trigger] ids[j]], list[j], ids[j], device_id@, now) by {
                    if j < i {
                        assert(ids.take(i as int)[j] == ids[j]);
                        assert(ids.take(i as int).contains(ids[j]));
                        assert(dom_i.contains(ids[j]));
                        assert(ids[j] != id);
                    }
                }
            }
            out.push(wallet);
            i = i + 1;
        }
        proof {
            assert(list.skip(i as int).len() == 0);
        }
        Ok(out)
    }
    /// Registers wallets on `device_id` (see `register_wallets_at`),
    /// stamped with the current time; `wallet_ids` are their new ids.
    pub fn register_wallets(
        &mut self,
        device_id: &DeviceID,
        create_wallet_info_list: &Vec<CreateConsoleWalletInfo>,
        wallet_ids: &Vec<WalletID>,
    ) -> (r: Result<Vec<ConsoleWalletInfo>, GatewayError>)
        requires
            wallet_ids@.len() == create_wallet_info_list@.len(),
        ensures
            clock_refused(r) ==> *final(self) == *old(self),
            !clock_refused(r) ==> exists|now: u64|
                register_result(*old(self), *final(self), device_id@, create_wallet_info_list@, views(wallet_ids@), now, r),
            final(self).device_reg().index_map() == old(self).device_reg().index_map(),
            final(self).user_reg() == old(self).user_reg(),
            keeps_tee_state(*old(self), *final(self)),
    {
        let now = match unix_time() {
            Some(t) => t,
            None => {
                return Err(GatewayError::ClockBeforeEpoch);
            },
        };
        let r = self.register_wallets_at(device_id, create_wallet_info_list, wallet_ids, now);
        proof {
            assert(register_result(*old(self), *self, device_id@, create_wallet_info_list@, views(wallet_ids@), now, r));
        }
        r
    }

    /// Registers on `device_id` wallets whose ids are given (see
    /// `register_wallets_at`), at `now`.
    pub fn wallet_create_with_id_at(
        &mut self,
        device_id: &DeviceID,
        create_wallet_info_list: Vec<UpdateConsoleWalletInfo>,
        now: u64,
    ) -> (r: Result<Vec<ConsoleWalletInfo>, GatewayError>)
        ensures
            register_result(
                *old(self),
                *final(self),
                device_id@,
                creates_of(create_wallet_info_list@),
                ids_of(create_wallet_info_list@),
                now,
                r,
            ),
            !clock_refused(r),
            final(self).device_reg().index_map() == old(self).device_reg().index_map(),
            final(self).user_reg() == old(self).user_reg(),
            keeps_tee_state(*old(self), *final(self)),
    {
        let ghost given = create_wallet_info_list@;
        let mut creates: Vec<CreateConsoleWalletInfo> = Vec::new();
        let mut ids: Vec<WalletID> = Vec::new();
        let mut items = create_wallet_info_list;
        let mut i: usize = 0;
        let n = items.len();
        proof {
            assert(items@ =~= given.skip(0));
        }
        while i < n
            invariant
                i <= n,
                n == given.len(),
                items@ == given.skip(i as int),
                creates@ == creates_of(given).take(i as int),
                views(ids@) == ids_of(given).take(i as int),
            decreases n - i,
        {
            let u = items.remove(0);
            proof {
                assert(u == given[i as int]);
            }
            let ghost ids_before = ids@;
            ids.push(u.wallet_id);
            creates.push(CreateConsoleWalletInfo {
                wallet_name: u.wallet_name,
                approval_chain_basic: u.approval_chain_basic,
                authorized_operators: u.authorized_operators,
                viewers: u.viewers,
            });
            proof {
                assert(items@ =~= given.skip(i as int + 1));
                assert(creates_of(given).take(i as int + 1) =~= creates_of(given).take(i as int).push(creates@[i as int]));
                assert(views(ids@) =~= views(ids_before).push(given[i as int].wallet_id@));
                assert(ids_of(given).take(i as int + 1) =~= ids_of(given).take(i as int).push(given[i as int].wallet_id@));
            }
            i = i + 1;
        }
        proof {
            assert(creates_of(given).take(n as int) =~= creates_of(given));
            assert(ids_of(given).take(n as int) =~= ids_of(given));
        }
        self.register_wallets_at(device_id, &creates, &ids, now)
    }

    /// Registers wallets with given ids (see `wallet_create_with_id_at`),
    /// stamped with the current time.
    pub fn wallet_create_with_id(
        &mut self,
        device_id: &DeviceID,
        create_wallet_info_list: Vec<UpdateConsoleWalletInfo>,
    ) -> (r: Result<Vec<ConsoleWalletInfo>, GatewayError>)
        ensures
            clock_refused(r) ==> *final(self) == *old(self),
            !clock_refused(r) ==> exists|now: u64|
                register_result(
                    *old(self),
                    *final(self),
                    device_id@,
                    creates_of(create_wallet_info_list@),
                    ids_of(create_wallet_info_list@),
                    now,
                    r,
                ),
            final(self).device_reg().index_map() == old(self).device_reg().index_map(),
            final(self).user_reg() == old(self).user_reg(),
            keeps_tee_state(*old(self), *final(self)),
    {
        let ghost list = create_wallet_info_list@;
        let now = match unix_time() {
            Some(t) => t,
            None => {
                return Err(GatewayError::ClockBeforeEpoch);
            },
        };
        let r = self.wallet_create_with_id_at(device_id, create_wallet_info_list, now);
        proof {
            assert(register_result(*old(self), *self, device_id@, creates_of(list), ids_of(list), now, r));
        }
        r
    }

    /// The emails of the user ids `ids`; fails when one has none recorded.
    fn resolve_uids(&self, ids: &Vec<UserID>) -> (r: Result<Vec<Email>, GatewayError>)
        ensures
            r is Ok <==> uids_known(self.user_reg().uids(), ids@),
            r matches Ok(es) ==> views(es@) == emails_of(self.user_reg().uids(), ids@),
            r matches Err(e) ==> e == GatewayError::UserNotFound,
    {
        let ghost uids = self.user_reg().uids();
        let mut out: Vec<Email> = Vec::new();
        let mut i: usize = 0;
        while i < ids.len()
            invariant
                i <= ids@.len(),
                uids == self.user_reg().uids(),
                forall|j: int| 0 <= j < i ==> uids.contains_key(#[trigger] ids@[j]@),
                views(out@) == emails_of(uids, ids@).take(i as int),
            decreases ids@.len() - i,
        {
            match self.user_registry.email_of_uid(&ids[i]) {
                Some(e) => {
                    let ghost before = out@;
                    out.push(e);
                    proof {
                        assert(views(out@) =~= views(before).push(uids[ids@[i as int]@].email@));
                        assert(emails_of(uids, ids@).take(i as int + 1) =~= emails_of(uids, ids@).take(i as int).push(uids[ids@[i as int]@].email@));
                    }
                },
                None => {
                    return Err(GatewayError::UserNotFound);
                },
            }
            i = i + 1;
        }
        proof {
            assert(emails_of(uids, ids@).take(i as int) =~= emails_of(uids, ids@));
        }
        Ok(out)
    }

    /// The wallet the TEE reported, with its participants by email, at
    /// `config_version`; fails when a participant's user id is unknown.
    pub fn resolve_synced_wallet(&self, info: &LatestWalletInfo, config_version: u64) -> (r: Result<SyncedWalletInfo, GatewayError>)
        ensures
            r is Ok <==> latest_known(self.user_reg().uids(), *info),
            r matches Ok(s) ==> synced_from(self.user_reg().uids(), *info, s, config_version),
            r matches Err(e) ==> e == GatewayError::UserNotFound,
    {
        let ghost uids = self.user_reg().uids();
        let mut stages: Vec<crate::model::ApprovalStageBasic> = Vec::new();
        let mut i: usize = 0;
        while i < info.approval_chain.len()
            invariant
                i <= info.approval_chain@.len(),
                uids == self.user_reg().uids(),
                stages@.len() == i,
                forall|s: int| 0 <= s < i ==> uids_known(uids, #[trigger] info.approval_chain@[s].approvers@),
                forall|s: int| 0 <= s < i ==> {
                    &&& (#[trigger] stages@[s]).threshold == info.approval_chain@[s].threshold
                    &&& views(stages@[s].approvers@) == emails_of(uids, info.approval_chain@[s].approvers@)
                },
            decreases info.approval_chain@.len() - i,
        {
            let stage = &info.approval_chain[i];
            match self.resolve_uids(&stage.approvers) {
                Ok(emails) => {
                    stages.push(crate::model::ApprovalStageBasic::new(stage.threshold, emails));
                },
                Err(e) => {
                    return Err(e);
                },
            }
            i = i + 1;
        }
        let operators = match self.resolve_uids(&info.authorized_operators) {
            Ok(es) => es,
            Err(e) => {
                return Err(e);
            },
        };
        let mut accounts: Vec<crate::wallet::MultiChainAccountId> = Vec::new();
        let mut j: usize = 0;
        while j < info.accounts.len()
            invariant
                j <= info.accounts@.len(),
                accounts@ == info.accounts@.take(j as int),
            decreases info.accounts@.len() - j,
        {
            accounts.push(info.accounts[j].duplicate());
            proof {
                assert(info.accounts@.take(j as int + 1) =~= info.accounts@.take(j as int).push(info.accounts@[j as int]));
            }
            j = j + 1;
        }
        proof {
            assert(info.accounts@.take(j as int) =~= info.accounts@);
        }
        Ok(SyncedWalletInfo::new(
            clone_str(&info.wallet_id),
            crate::model::ApprovalChainBasic(stages),
            crate::model::OperatorsBasic::new(operators),
            accounts,
            config_version,
        ))
    }

    /// The configuration to sync into the online TEE: the one committed
    /// for the online device, when its TEE needs it.
    pub fn config_to_sync(&self) -> (r: Result<CommittedConfig, GatewayError>)
        ensures
            self.online() is None ==> r == Err::<CommittedConfig, GatewayError>(GatewayError::NoOnlineDevice),
            self.online() matches Some(d) ==> {
                &&& r is Ok <==> (self.committed().contains_key(d.device_id@) && crate::tee::needs_sync(
                    d.status,
                    self.committed()[d.device_id@].signed_config.config_version,
                ))
                &&& r matches Ok(c) ==> c.device_id@ == d.device_id@ && c.signed_config.config_version
                    == self.committed()[d.device_id@].signed_config.config_version
                    && c.signed_config.signed_payload@ == self.committed()[d.device_id@].signed_config.signed_payload@
                &&& r matches Err(e) ==> e == GatewayError::NoNeedToSync
            },
    {
        proof {
            use_type_invariant(self);
        }
        let online = match &self.online_device {
            Some(d) => d,
            None => {
                return Err(GatewayError::NoOnlineDevice);
            },
        };
        let committed = self.get_committed_config(&online.device_id);
        let ghost cm = committed;
        let picked = crate::tee::need_sync(online, committed);
        proof {
            if cm is Some {
                assert(cm->0.signed_config.config_version == self.committed()[online.device_id@].signed_config.config_version);
            }
        }
        match picked {
            Some(c) => Ok(c),
            None => Err(GatewayError::NoNeedToSync),
        }
    }

    /// Stores what the TEE synced back at `config_version`, wallet by
    /// wallet (a wallet with an unknown participant stops the sync, those
    /// before it stay), then records that the online TEE runs that
    /// version.
    pub fn store_synced_wallets(&mut self, latest: &Vec<LatestWalletInfo>, config_version: u64) -> (r: Result<(), GatewayError>)
        ensures
            r is Ok <==> (forall|i: int| 0 <= i < latest@.len() ==> latest_known(old(self).user_reg().uids(), #[trigger] latest@[i]))
                && old(self).online() is Some,
            r is Ok ==> {
                &&& final(self).synced().dom() == old(self).synced().dom() + latest@.map_values(|w: LatestWalletInfo| w.wallet_id@).to_set()
                &&& forall|i: int| 0 <= i < latest@.len() ==> (forall|j: int| i < j < latest@.len() ==> latest@[j].wallet_id@ != latest@[i].wallet_id@)
                    ==> synced_from(old(self).user_reg().uids(), latest@[i], final(self).synced()[#[trigger] latest@[i].wallet_id@], config_version)
                &&& final(self).online() matches Some(d) && d.status == TeeOnlineStatus::ServiceRunning(crate::tee::ServiceInfo { config_version })
                    && d.device_id == old(self).online()->0.device_id
            },
            !(forall|i: int| 0 <= i < latest@.len() ==> latest_known(old(self).user_reg().uids(), #[trigger] latest@[i]))
                ==> r == Err::<(), GatewayError>(GatewayError::UserNotFound),
            (forall|i: int| 0 <= i < latest@.len() ==> latest_known(old(self).user_reg().uids(), #[trigger] latest@[i]))
                && old(self).online() is None ==> r == Err::<(), GatewayError>(GatewayError::NoOnlineDevice),
            final(self).user_reg() == old(self).user_reg(),
            final(self).device_reg() == old(self).device_reg(),
            final(self).committed() == old(self).committed(),
    {
        let ghost ids = latest@.map_values(|w: LatestWalletInfo| w.wallet_id@);
        let ghost uids = self.user_reg().uids();
        let ghost synced0 = self.synced();
        let mut i: usize = 0;
        proof {
            assert(synced0.dom() + ids.take(0).to_set() =~= synced0.dom());
        }
        while i < latest.len()
            invariant
                i <= latest@.len(),
                ids == latest@.map_values(|w: LatestWalletInfo| w.wallet_id@),
                uids == self.user_reg().uids(),
                uids == old(self).user_reg().uids(),
                synced0 == old(self).synced(),
                self.user_reg() == old(self).user_reg(),
                self.device_reg() == old(self).device_reg(),
                self.committed() == old(self).committed(),
                self.online() == old(self).online(),
                forall|j: int| 0 <= j < i ==> latest_known(uids, #[trigger] latest@[j]),
                self.synced().dom() == synced0.dom() + ids.take(i as int).to_set(),
                forall|j: int| 0 <= j < i ==> (forall|k: int| j < k < i ==> latest@[k].wallet_id@ != latest@[j].wallet_id@)
                    ==> synced_from(uids, latest@[j], self.synced()[#[trigger] latest@[j].wallet_id@], config_version),
            decreases latest@.len() - i,
        {
            let synced = match self.resolve_synced_wallet(&latest[i], config_version) {
                Ok(s) => s,
                Err(e) => {
                    return Err(e);
                },
            };
            let ghost before = self.synced();
            self.put_synced_wallet(synced);
            proof {
                assert(ids.take(i as int + 1) =~= ids.take(i as int).push(ids[i as int]));
                crate::model::lemma_seq_push_to_set(ids.take(i as int), ids[i as int]);
                assert(self.synced().dom() =~= synced0.dom() + ids.take(i as int + 1).to_set());
            }
            i = i + 1;
        }
        proof {
            assert(ids.take(i as int) =~= ids);
            use_type_invariant(&*self);
        }
        let mut online: Option<OnlineDevice> = None;
        std::mem::swap(&mut online, &mut self.online_device);
        match online {
            Some(mut d) => {
                d.set_running(config_version);
                self.online_device = Some(d);
                Ok(())
            },
            None => Err(GatewayError::NoOnlineDevice),
        }
    }
}

} // verus!
