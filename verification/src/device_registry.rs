//! The registry of devices and console wallets: which user owns which
//! device, which wallets a device created or holds backups of, and the
//! wallets themselves.
use vstd::prelude::*;
use crate::device_info::{BackupDeviceInfoBasic, DeviceIndex, DeviceInfo, DeviceInfoBasic};
use crate::error::GatewayError;
use crate::model::{
    chain_approvers, clone_bytes, clone_str, clone_strs, AccountId, CkPublicKey, DeviceID, Email,
    Role, RoleSet, WalletID, MAX_WALLET_NUM_PER_DEVICE,
};
use crate::strs::{contains_str, push_unique, union_strs, view_set, views};
use crate::table::Table;
use crate::user_registry::UserRegistry;
use crate::wallet::{ConsoleWalletInfo, WalletAccountInfo};

verus! {

pub struct DeviceRegistry {
    device_index: Table<DeviceIndex>,
    devices: Table<DeviceInfo>,
    wallets: Table<ConsoleWalletInfo>,
    wallet_accounts: Table<WalletAccountInfo>,
}

/// What the CA signs to let a device take wallet backups: the receiving
/// device, its backup key, the wallets it may hold (empty: every wallet of
/// the source device) and the time of the request.
pub struct BackupListToSign {
    pub device_id: DeviceID,
    pub backup_pubkey: CkPublicKey,
    pub wallet_ids: Vec<WalletID>,
    pub timestamp: u64,
}

/// A participant of a device's wallets, as the TEE configuration lists it.
pub struct TaUserEntry {
    pub email: Email,
    pub pub_key: CkPublicKey,
    pub roles: RoleSet,
}

/// What the CA signs as the configuration of a device: its participants,
/// its wallets and the configuration version.
pub struct WalletConfigToSign {
    pub users: Vec<TaUserEntry>,
    pub wallets: Vec<ConsoleWalletInfo>,
    pub config_version: u64,
}

/// `new` is `old` with `device` added to the devices holding a backup.
pub open spec fn backup_added(old: ConsoleWalletInfo, new: ConsoleWalletInfo, device: Seq<char>) -> bool {
    &&& new.wallet_id@ == old.wallet_id@
    &&& new.wallet_name@ == old.wallet_name@
    &&& new.created_by_device@ == old.created_by_device@
    &&& new.approval_chain_basic.same_as(&old.approval_chain_basic)
    &&& new.authorized_operators.0@ == old.authorized_operators.0@
    &&& new.viewers.0@ == old.viewers.0@
    &&& new.update_time == old.update_time
    &&& view_set(new.backed_up_by_devices@) == view_set(old.backed_up_by_devices@).insert(device)
}

/// Why the wallet `id` cannot be backed up from `from_id` into a device
/// that holds `count` wallets, if it cannot.
pub open spec fn backup_check(
    wallets: Map<Seq<char>, ConsoleWalletInfo>,
    from_id: Seq<char>,
    from_created: Seq<Seq<char>>,
    count: nat,
    id: Seq<char>,
) -> Option<GatewayError> {
    if !wallets.contains_key(id) {
        Some(GatewayError::WalletNotFound)
    } else if !from_created.contains(id) {
        Some(GatewayError::WalletNotOwnedByDevice)
    } else if wallets[id].created_by_device@ != from_id {
        Some(GatewayError::WalletNotOwnedByDevice)
    } else if count >= MAX_WALLET_NUM_PER_DEVICE {
        Some(GatewayError::TooManyWallets)
    } else {
        None
    }
}

/// Walks `list` in order: the wallets that got the backup so far, the
/// receiving device's backed-up list, and the first failure.
pub open spec fn backup_plan(
    wallets: Map<Seq<char>, ConsoleWalletInfo>,
    from_id: Seq<char>,
    from_created: Seq<Seq<char>>,
    to_created_len: nat,
    to_backed: Seq<Seq<char>>,
    list: Seq<Seq<char>>,
) -> (Seq<Seq<char>>, Seq<Seq<char>>, Option<GatewayError>)
    decreases list.len(),
{
    if list.len() == 0 {
        (Seq::empty(), to_backed, None)
    } else {
        let (done, backed, err) = backup_plan(
            wallets,
            from_id,
            from_created,
            to_created_len,
            to_backed,
            list.drop_last(),
        );
        if err is Some {
            (done, backed, err)
        } else {
            let id = list.last();
            match backup_check(wallets, from_id, from_created, to_created_len + backed.len(), id) {
                Some(e) => (done, backed, Some(e)),
                None => (
                    done.push(id),
                    if backed.contains(id) {
                        backed
                    } else {
                        backed.push(id)
                    },
                    None,
                ),
            }
        }
    }
}

/// Everyone who approves or operates one of the wallets `ids`.
pub open spec fn config_participants(
    wallets: Map<Seq<char>, ConsoleWalletInfo>,
    ids: Set<Seq<char>>,
) -> Set<Seq<char>> {
    Set::new(
        |e: Seq<char>|
            exists|id: Seq<char>| ids.contains(id) && #[trigger] wallets[id].participant_set().contains(e),
    )
}

/// The ids of a list of wallets.
pub open spec fn wallet_ids_of(ws: Seq<ConsoleWalletInfo>) -> Seq<Seq<char>> {
    ws.map_values(|w: ConsoleWalletInfo| w.wallet_id@)
}

/// The emails of a list of participant entries.
pub open spec fn entry_emails(us: Seq<TaUserEntry>) -> Seq<Seq<char>> {
    us.map_values(|u: TaUserEntry| u.email@)
}

pub proof fn lemma_config_participants_insert(
    wallets: Map<Seq<char>, ConsoleWalletInfo>,
    ids: Set<Seq<char>>,
    id: Seq<char>,
)
    ensures
        config_participants(wallets, ids.insert(id)) == config_participants(wallets, ids).union(
            wallets[id].participant_set(),
        ),
{
    let a = config_participants(wallets, ids.insert(id));
    let b = config_participants(wallets, ids).union(wallets[id].participant_set());
    assert forall|e: Seq<char>| a.contains(e) <==> b.contains(e) by {
        if a.contains(e) {
            let w = choose|w: Seq<char>| ids.insert(id).contains(w) && #[trigger] wallets[w].participant_set().contains(e);
            if w != id {
                assert(ids.contains(w));
            }
        }
        if wallets[id].participant_set().contains(e) {
            assert(ids.insert(id).contains(id));
        }
    }
    assert(a =~= b);
}

/// Once a prefix of the list fails, the whole list fails the same way.
pub proof fn lemma_backup_plan_stops(
    wallets: Map<Seq<char>, ConsoleWalletInfo>,
    from_id: Seq<char>,
    from_created: Seq<Seq<char>>,
    to_created_len: nat,
    to_backed: Seq<Seq<char>>,
    list: Seq<Seq<char>>,
    j: int,
)
    requires
        0 <= j <= list.len(),
        backup_plan(wallets, from_id, from_created, to_created_len, to_backed, list.take(j)).2 is Some,
    ensures
        backup_plan(wallets, from_id, from_created, to_created_len, to_backed, list)
            == backup_plan(wallets, from_id, from_created, to_created_len, to_backed, list.take(j)),
    decreases list.len(),
{
    if j == list.len() {
        assert(list.take(j) =~= list);
    } else {
        assert(list.drop_last().take(j) =~= list.take(j));
        lemma_backup_plan_stops(wallets, from_id, from_created, to_created_len, to_backed, list.drop_last(), j);
    }
}

/// The first of `emails` that is not a registered user holding `role`,
/// reported as `UserNotFound` or as `err`.
pub open spec fn role_problem(
    users: Map<Seq<char>, crate::user_info::UserInfo>,
    emails: Seq<Seq<char>>,
    role: Role,
    err: GatewayError,
) -> Option<GatewayError>
    decreases emails.len(),
{
    if emails.len() == 0 {
        None
    } else if !users.contains_key(emails[0]) {
        Some(GatewayError::UserNotFound)
    } else if !users[emails[0]].roles.has(role) {
        Some(err)
    } else {
        role_problem(users, emails.drop_first(), role, err)
    }
}

/// A role problem is either an unknown user or the given error.
pub proof fn lemma_role_problem_kinds(
    users: Map<Seq<char>, crate::user_info::UserInfo>,
    emails: Seq<Seq<char>>,
    role: Role,
    err: GatewayError,
)
    ensures
        role_problem(users, emails, role, err) matches Some(e) ==> e == GatewayError::UserNotFound || e == err,
    decreases emails.len(),
{
    if emails.len() > 0 {
        lemma_role_problem_kinds(users, emails.drop_first(), role, err);
    }
}

/// What exporting the configuration of `device` at `version` gives: the
/// device must exist, and so must every wallet it holds (created or backed
/// up) and every participant of those wallets; the configuration then
/// lists those wallets and participants once each, with the participants'
/// keys and roles.
pub open spec fn wallet_config_result(
    reg: DeviceRegistry,
    users: Map<Seq<char>, crate::user_info::UserInfo>,
    device: Seq<char>,
    version: u64,
    r: Result<WalletConfigToSign, GatewayError>,
) -> bool {
    &&& !reg.device_map().contains_key(device) ==> r == Err::<WalletConfigToSign, GatewayError>(GatewayError::DeviceNotFound)
    &&& reg.device_map().contains_key(device) ==> {
        let dev = reg.device_map()[device];
        let ids = dev.created().to_set().union(dev.backed_up().to_set());
        let found = ids.subset_of(reg.wallet_map().dom());
        let people = config_participants(reg.wallet_map(), ids);
        let known = people.subset_of(users.dom());
        &&& !found ==> r == Err::<WalletConfigToSign, GatewayError>(GatewayError::WalletNotFound)
        &&& found && !known ==> r == Err::<WalletConfigToSign, GatewayError>(GatewayError::UserNotFound)
        &&& found && known ==> (r matches Ok(cfg) && {
            &&& cfg.config_version == version
            &&& wallet_ids_of(cfg.wallets@).no_duplicates()
            &&& wallet_ids_of(cfg.wallets@).to_set() == ids
            &&& forall|i: int| 0 <= i < cfg.wallets@.len() ==> (#[trigger] cfg.wallets@[i]).same_as(
                &reg.wallet_map()[cfg.wallets@[i].wallet_id@],
            )
            &&& entry_emails(cfg.users@).no_duplicates()
            &&& entry_emails(cfg.users@).to_set() == people
            &&& forall|i: int| 0 <= i < cfg.users@.len() ==> {
                let u = users[(#[trigger] cfg.users@[i]).email@];
                &&& cfg.users@[i].pub_key.0@ == u.pub_key.0@
                &&& cfg.users@[i].roles.0@ == u.roles.0@
            }
        })
    }
}

/// What granting `info.device_id` backups of wallets of `from_id` at
/// `now` does to the registry (`before` to `after`) and answers: both
/// devices must exist; the wallets named (all those `from_id` created when
/// none are named) are walked in order, each must be a wallet that
/// `from_id` created and the receiving device must have room; the wallets
/// that passed record the backup device, and when all passed the receiving
/// device lists them as backed up and the list to sign is returned.
pub open spec fn backup_result(
    before: DeviceRegistry,
    after: DeviceRegistry,
    from_id: Seq<char>,
    info: BackupDeviceInfoBasic,
    now: u64,
    r: Result<BackupListToSign, GatewayError>,
) -> bool {
    &&& !before.device_map().contains_key(from_id) ==> r == Err::<BackupListToSign, GatewayError>(
        GatewayError::DeviceNotFound,
    ) && after == before
    &&& before.device_map().contains_key(from_id) && !before.device_map().contains_key(info.device_id@) ==> r
        == Err::<BackupListToSign, GatewayError>(GatewayError::DeviceNotFound) && after == before
    &&& before.device_map().contains_key(from_id) && before.device_map().contains_key(info.device_id@) ==> {
        let from = before.device_map()[from_id];
        let to_id = info.device_id@;
        let to = before.device_map()[to_id];
        let list = if info.wallet_id_list@.len() == 0 {
            from.created()
        } else {
            views(info.wallet_id_list@)
        };
        let plan = backup_plan(before.wallet_map(), from_id, from.created(), to.created().len(), to.backed_up(), list);
        &&& after.wallet_map().dom() == before.wallet_map().dom()
        &&& forall|k: Seq<char>| #[trigger] before.wallet_map().contains_key(k) ==> {
            &&& plan.0.contains(k) ==> backup_added(before.wallet_map()[k], after.wallet_map()[k], to_id)
            &&& !plan.0.contains(k) ==> after.wallet_map()[k] == before.wallet_map()[k]
        }
        &&& plan.2 is Some ==> r == Err::<BackupListToSign, GatewayError>(plan.2->0) && after.device_map()
            == before.device_map()
        &&& plan.2 is None ==> {
            let dev = after.device_map()[to_id];
            &&& r matches Ok(out) && {
                &&& out.device_id@ == to_id
                &&& out.backup_pubkey.0@ == to.backup_pubkey_spec()
                &&& out.timestamp == now
                &&& (info.wallet_id_list@.len() == 0 ==> out.wallet_ids@.len() == 0)
                &&& (info.wallet_id_list@.len() != 0 ==> views(out.wallet_ids@) == plan.1)
            }
            &&& after.device_map() == before.device_map().insert(to_id, dev)
            &&& dev.backed_up() == plan.1
            &&& dev.created() == to.created()
            &&& dev.same_identity(&to)
        }
    }
}

/// Why registering `wallet` on `device` fails, if it does.
pub open spec fn register_wallet_problem(
    reg: DeviceRegistry,
    users: Map<Seq<char>, crate::user_info::UserInfo>,
    device: Seq<char>,
    wallet: ConsoleWalletInfo,
) -> Option<GatewayError> {
    if !reg.device_map().contains_key(device) {
        Some(GatewayError::DeviceNotFound)
    } else if reg.wallet_map().contains_key(wallet.wallet_id@) {
        Some(GatewayError::WalletAlreadyExists)
    } else if role_problem(
        users,
        chain_approvers(wallet.approval_chain_basic.0@),
        Role::Approver,
        GatewayError::NotApprover,
    ) is Some {
        role_problem(
            users,
            chain_approvers(wallet.approval_chain_basic.0@),
            Role::Approver,
            GatewayError::NotApprover,
        )
    } else if role_problem(
        users,
        views(wallet.authorized_operators.0@),
        Role::TxOperator,
        GatewayError::NotTxOperator,
    ) is Some {
        role_problem(
            users,
            views(wallet.authorized_operators.0@),
            Role::TxOperator,
            GatewayError::NotTxOperator,
        )
    } else if reg.device_map()[device].count() >= MAX_WALLET_NUM_PER_DEVICE {
        Some(GatewayError::TooManyWallets)
    } else if reg.device_map()[device].created().contains(wallet.wallet_id@) {
        Some(GatewayError::WalletAlreadyCreatedOnDevice)
    } else if reg.device_map()[device].backed_up().contains(wallet.wallet_id@) {
        Some(GatewayError::WalletAlreadyBackedUpOnDevice)
    } else {
        None
    }
}

/// Role problems of a concatenation: those of the first part, else those
/// of the second.
pub proof fn lemma_role_problem_concat(
    users: Map<Seq<char>, crate::user_info::UserInfo>,
    a: Seq<Seq<char>>,
    b: Seq<Seq<char>>,
    role: Role,
    err: GatewayError,
)
    ensures
        role_problem(users, a + b, role, err) == (if role_problem(users, a, role, err) is Some {
            role_problem(users, a, role, err)
        } else {
            role_problem(users, b, role, err)
        }),
    decreases a.len(),
{
    if a.len() == 0 {
        assert(a + b =~= b);
    } else {
        assert((a + b)[0] == a[0]);
        assert((a + b).drop_first() =~= a.drop_first() + b);
        lemma_role_problem_concat(users, a.drop_first(), b, role, err);
    }
}

pub proof fn lemma_chain_approvers_concat(a: Seq<crate::model::ApprovalStageBasic>, b: Seq<crate::model::ApprovalStageBasic>)
    ensures
        chain_approvers(a + b) == chain_approvers(a) + chain_approvers(b),
    decreases b.len(),
{
    if b.len() == 0 {
        assert(a + b =~= a);
        assert(chain_approvers(a) + chain_approvers(b) =~= chain_approvers(a));
    } else {
        assert((a + b).drop_last() =~= a + b.drop_last());
        lemma_chain_approvers_concat(a, b.drop_last());
        assert(chain_approvers(a) + chain_approvers(b) =~= chain_approvers(a) + chain_approvers(b.drop_last()) + views(b.last().approvers@));
    }
}

/// The first of `emails` that is not a registered user holding `role`.
pub fn check_roles(user_registry: &UserRegistry, emails: &Vec<Email>, role: Role, err: GatewayError) -> (r: Option<GatewayError>)
    ensures
        r == role_problem(user_registry.users(), views(emails@), role, err),
{
    let ghost users = user_registry.users();
    let mut i: usize = 0;
    proof {
        assert(views(emails@).skip(0) =~= views(emails@));
    }
    while i < emails.len()
        invariant
            i <= emails@.len(),
            users == user_registry.users(),
            role_problem(users, views(emails@), role, err) == role_problem(users, views(emails@).skip(i as int), role, err),
        decreases emails@.len() - i,
    {
        let ghost rest = views(emails@).skip(i as int);
        proof {
            assert(rest[0] == emails@[i as int]@);
            assert(rest.drop_first() =~= views(emails@).skip(i as int + 1));
        }
        match user_registry.get_roles(&emails[i]) {
            Err(_) => {
                return Some(GatewayError::UserNotFound);
            },
            Ok(roles) => {
                let set = RoleSet(roles);
                if !set.contains(role) {
                    return Some(err);
                }
            },
        }
        i = i + 1;
    }
    proof {
        assert(views(emails@).skip(i as int).len() == 0);
    }
    None
}

/// The first approver of the chain, in stage order, that is not a
/// registered approver.
pub fn check_chain_roles(user_registry: &UserRegistry, chain: &crate::model::ApprovalChainBasic) -> (r: Option<GatewayError>)
    ensures
        r == role_problem(user_registry.users(), chain_approvers(chain.0@), Role::Approver, GatewayError::NotApprover),
{
    let ghost users = user_registry.users();
    let mut i: usize = 0;
    proof {
        assert(chain.0@.take(0) =~= Seq::<crate::model::ApprovalStageBasic>::empty());
    }
    while i < chain.0.len()
        invariant
            i <= chain.0@.len(),
            users == user_registry.users(),
            role_problem(users, chain_approvers(chain.0@.take(i as int)), Role::Approver, GatewayError::NotApprover) is None,
        decreases chain.0@.len() - i,
    {
        let p = check_roles(user_registry, &chain.0[i].approvers, Role::Approver, GatewayError::NotApprover);
        proof {
            crate::model::lemma_chain_approvers_prefix(chain.0@, i as int);
            lemma_role_problem_concat(users, chain_approvers(chain.0@.take(i as int)), views(chain.0@[i as int].approvers@), Role::Approver, GatewayError::NotApprover);
        }
        if p.is_some() {
            proof {
                assert(chain.0@ =~= chain.0@.take(i as int + 1) + chain.0@.skip(i as int + 1));
                lemma_chain_approvers_concat(chain.0@.take(i as int + 1), chain.0@.skip(i as int + 1));
                lemma_role_problem_concat(users, chain_approvers(chain.0@.take(i as int + 1)), chain_approvers(chain.0@.skip(i as int + 1)), Role::Approver, GatewayError::NotApprover);
            }
            return p;
        }
        i = i + 1;
    }
    proof {
        assert(chain.0@.take(i as int) =~= chain.0@);
    }
    None
}

pub proof fn lemma_chain_same_as_trans(
    a: crate::model::ApprovalChainBasic,
    b: crate::model::ApprovalChainBasic,
    c: crate::model::ApprovalChainBasic,
)
    requires
        a.same_as(&b),
        b.same_as(&c),
    ensures
        a.same_as(&c),
{
    assert forall|i: int| 0 <= i < a.0@.len() implies (#[trigger] a.0@[i]).same_as(&c.0@[i]) by {
        assert(a.0@[i].same_as(&b.0@[i]));
        assert(b.0@[i].same_as(&c.0@[i]));
    }
}

pub proof fn lemma_backup_added_trans(
    a: ConsoleWalletInfo,
    b: ConsoleWalletInfo,
    c: ConsoleWalletInfo,
    device: Seq<char>,
)
    requires
        backup_added(a, b, device),
        backup_added(b, c, device),
    ensures
        backup_added(a, c, device),
{
    lemma_chain_same_as_trans(c.approval_chain_basic, b.approval_chain_basic, a.approval_chain_basic);
    assert(view_set(c.backed_up_by_devices@) =~= view_set(a.backed_up_by_devices@).insert(device));
}

impl DeviceRegistry {
    /// Every record is stored under its own id (an index under its user's
    /// email), and device lists hold each device once.
    #[verifier::type_invariant]
    closed spec fn wf(self) -> bool {
        &&& self.device_index.key_seq().no_duplicates()
        &&& self.devices.key_seq().no_duplicates()
        &&& self.wallets.key_seq().no_duplicates()
        &&& self.wallet_accounts.key_seq().no_duplicates()
        &&& forall|k: Seq<char>| #[trigger] self.device_index.map().contains_key(k) ==> {
            &&& self.device_index.map()[k].email_spec() == k
            &&& self.device_index.map()[k].devices().no_duplicates()
        }
        &&& forall|k: Seq<char>| #[trigger] self.devices.map().contains_key(k)
            ==> self.devices.map()[k].id_spec() == k
        &&& forall|k: Seq<char>| #[trigger] self.wallets.map().contains_key(k)
            ==> self.wallets.map()[k].wallet_id@ == k
        &&& forall|k: Seq<char>| #[trigger] self.wallet_accounts.map().contains_key(k)
            ==> self.wallet_accounts.map()[k].wallet_id@ == k
    }

    /// Device indexes, keyed by the user's email.
    pub closed spec fn index_map(&self) -> Map<Seq<char>, DeviceIndex> {
        self.device_index.map()
    }

    /// Device indexes in the order their users first registered a device.
    pub closed spec fn index_seq(&self) -> Seq<DeviceIndex> {
        self.device_index.value_seq()
    }

    /// Devices, keyed by device id.
    pub closed spec fn device_map(&self) -> Map<Seq<char>, DeviceInfo> {
        self.devices.map()
    }

    /// Console wallets, keyed by wallet id.
    pub closed spec fn wallet_map(&self) -> Map<Seq<char>, ConsoleWalletInfo> {
        self.wallets.map()
    }

    /// Wallet accounts, keyed by wallet id.
    pub closed spec fn account_map(&self) -> Map<Seq<char>, WalletAccountInfo> {
        self.wallet_accounts.map()
    }

    /// Whether some user's index lists `device`.
    pub open spec fn device_registered(&self, device: Seq<char>) -> bool {
        exists|i: int|
            0 <= i < self.index_seq().len() && (#[trigger] self.index_seq()[i]).devices().contains(
                device,
            )
    }

    /// An empty registry.
    pub fn init() -> (r: Self)
        ensures
            r.index_map() == Map::<Seq<char>, DeviceIndex>::empty(),
            r.index_seq() == Seq::<DeviceIndex>::empty(),
            r.device_map() == Map::<Seq<char>, DeviceInfo>::empty(),
            r.wallet_map() == Map::<Seq<char>, ConsoleWalletInfo>::empty(),
            r.account_map() == Map::<Seq<char>, WalletAccountInfo>::empty(),
    {
        let t: Table<DeviceIndex> = Table::new();
        proof {
            t.lemma_lengths();
            assert(t.value_seq() =~= Seq::<DeviceIndex>::empty());
        }
        DeviceRegistry {
            device_index: t,
            devices: Table::new(),
            wallets: Table::new(),
            wallet_accounts: Table::new(),
        }
    }

    /// The device index of `email`, if the user has one.
    pub fn get_device_index_for_user(&self, email: &Email) -> (r: Option<&DeviceIndex>)
        ensures
            match r {
                Some(idx) => self.index_map().contains_key(email@) && *idx == self.index_map()[email@],
                None => !self.index_map().contains_key(email@),
            },
    {
        self.device_index.get(email)
    }

    /// Whether `device_id` is among `email`'s devices.
    pub fn device_exist_for_user(&self, email: &Email, device_id: &DeviceID) -> (r: bool)
        ensures
            r == (self.index_map().contains_key(email@) && self.index_map()[email@].devices().contains(
                device_id@,
            )),
    {
        match self.device_index.get(email) {
            Some(idx) => idx.contains(device_id),
            None => false,
        }
    }

    /// The user whose index lists `device_id` (the first such user, in
    /// index order).
    pub fn device_owner(&self, device_id: &DeviceID) -> (r: Result<Email, GatewayError>)
        ensures
            r is Ok <==> self.device_registered(device_id@),
            r matches Ok(email) ==> self.index_map().contains_key(email@) && self.index_map()[email@].devices().contains(device_id@),
            r matches Err(e) ==> e == GatewayError::DeviceNotFound,
    {
        proof {
            use_type_invariant(self);
            self.device_index.lemma_lengths();
        }
        let mut i: usize = 0;
        while i < self.device_index.len()
            invariant
                i <= self.index_seq().len(),
                self.device_index.key_seq().len() == self.index_seq().len(),
                forall|j: int| 0 <= j < i ==> !(#[trigger] self.index_seq()[j]).devices().contains(device_id@),
            decreases self.index_seq().len() - i,
        {
            let (k, idx) = self.device_index.entry(i);
            if idx.contains(device_id) {
                proof {
                    use_type_invariant(self);
                    self.device_index.lemma_key_value(i as int);
                }
                return Ok(clone_str(idx.email()));
            }
            i = i + 1;
        }
        Err(GatewayError::DeviceNotFound)
    }

    /// Registers the device `device_id` for `email` at `now` with the given
    /// keys and certificate; fails when some user's index already lists
    /// the device.
    pub fn register_device(
        &mut self,
        email: &Email,
        signing_pubkey: CkPublicKey,
        backup_pubkey: CkPublicKey,
        device_id: DeviceID,
        device_tee_cert: Vec<u8>,
        now: u64,
    ) -> (r: Result<DeviceInfoBasic, GatewayError>)
        ensures
            r is Err <==> old(self).device_registered(device_id@),
            r matches Err(e) ==> e == GatewayError::DeviceAlreadyRegistered && *final(self) == *old(self),
            r matches Ok(basic) ==> {
                let dev = final(self).device_map()[device_id@];
                let idx = final(self).index_map()[email@];
                &&& final(self).device_map() == old(self).device_map().insert(device_id@, dev)
                &&& final(self).index_map() == old(self).index_map().insert(email@, idx)
                &&& dev.owner_spec() == email@
                &&& dev.id_spec() == device_id@
                &&& dev.signing_pubkey_spec() == signing_pubkey.0@
                &&& dev.backup_pubkey_spec() == backup_pubkey.0@
                &&& dev.cert_spec() == device_tee_cert@
                &&& dev.register_time_spec() == now
                &&& dev.created() == Seq::<Seq<char>>::empty()
                &&& dev.backed_up() == Seq::<Seq<char>>::empty()
                &&& idx.email_spec() == email@
                &&& (old(self).index_map().contains_key(email@) ==> idx.devices() == old(
                    self,
                ).index_map()[email@].devices().push(device_id@))
                &&& (!old(self).index_map().contains_key(email@) ==> idx.devices() == seq![device_id@])
                &&& basic.owner@ == email@
                &&& basic.id@ == device_id@
                &&& basic.register_time == now
                &&& basic.created_wallets@.len() == 0
                &&& basic.backed_up_wallets@.len() == 0
            },
            final(self).wallet_map() == old(self).wallet_map(),
            final(self).account_map() == old(self).account_map(),
            old(self).device_registered(device_id@) <==> exists|e: Seq<char>|
                #![trigger old(self).index_map()[e]]
                old(self).index_map().contains_key(e) && old(self).index_map()[e].devices().contains(device_id@),
    {
        proof {
            use_type_invariant(&*self);
            self.device_index.lemma_lengths();
            let d = device_id@;
            if self.device_registered(d) {
                let i = choose|i: int|
                    0 <= i < self.index_seq().len() && (#[trigger] self.index_seq()[i]).devices().contains(d);
                self.device_index.lemma_key_value(i);
                let e = self.device_index.key_seq()[i];
                assert(self.index_map().contains_key(e) && self.index_map()[e].devices().contains(d));
            }
            if exists|e: Seq<char>|
                #![trigger self.index_map()[e]]
                self.index_map().contains_key(e) && self.index_map()[e].devices().contains(d) {
                let e = choose|e: Seq<char>|
                    #![trigger self.index_map()[e]]
                    self.index_map().contains_key(e) && self.index_map()[e].devices().contains(d);
                self.device_index.lemma_at_index(e);
                let j = choose|j: int|
                    0 <= j < self.device_index.key_seq().len() && self.device_index.key_seq()[j] == e
                        && self.device_index.value_seq()[j] == self.device_index.map()[e];
                assert(self.index_seq()[j].devices().contains(d));
            }
        }
        match self.device_owner(&device_id) {
            Ok(_) => {
                return Err(GatewayError::DeviceAlreadyRegistered);
            },
            Err(_) => {},
        }
        let ghost did = device_id@;
        let device_info = DeviceInfo::new(
            clone_str(email),
            clone_str(&device_id),
            signing_pubkey,
            backup_pubkey,
            device_tee_cert,
            Vec::new(),
            Vec::new(),
            now,
        );
        proof {
            assert(views(Seq::<String>::empty()) =~= Seq::<Seq<char>>::empty());
        }
        let new_list: Vec<DeviceID> = match self.device_index.get(email) {
            Some(idx) => {
                let mut list = clone_strs(idx.device_list());
                proof {
                    assert(self.device_index.map().contains_key(email@));
                    // the device is not listed by any index
                    assert(!idx.devices().contains(did)) by {
                        self.device_index.lemma_at_index(email@);
                        let j = choose|j: int| 0 <= j < self.device_index.key_seq().len()
                            && self.device_index.key_seq()[j] == email@
                            && self.device_index.value_seq()[j] == self.device_index.map()[email@];
                        self.device_index.lemma_lengths();
                        assert(self.index_seq()[j] == *idx);
                    }
                }
                push_unique(&mut list, clone_str(&device_id));
                list
            },
            None => {
                let mut list = Vec::new();
                list.push(clone_str(&device_id));
                proof {
                    assert(views(list@) =~= seq![did]);
                }
                list
            },
        };
        let basic = device_info.basic();
        let mut index = Table::new();
        std::mem::swap(&mut index, &mut self.device_index);
        let ghost before_index = index.map();
        let new_index = DeviceIndex::new(clone_str(email), new_list);
        index.insert(clone_str(email), new_index);
        let mut devices = Table::new();
        std::mem::swap(&mut devices, &mut self.devices);
        let ghost before_devices = devices.map();
        devices.insert(device_id, device_info);
        proof {
            assert forall|k: Seq<char>| #[trigger] index.map().contains_key(k) implies {
                &&& index.map()[k].email_spec() == k
                &&& index.map()[k].devices().no_duplicates()
            } by {
                if k != email@ {
                    assert(before_index.contains_key(k));
                }
            }
            assert forall|k: Seq<char>| #[trigger] devices.map().contains_key(k) implies devices.map()[k].id_spec() == k by {
                if k != did {
                    assert(before_devices.contains_key(k));
                }
            }
        }
        self.device_index = index;
        self.devices = devices;
        Ok(basic)
    }

    /// The certificate of `device_id`.
    pub fn export_device_cert(&self, device_id: &DeviceID) -> (r: Result<Vec<u8>, GatewayError>)
        ensures
            r is Ok <==> self.device_map().contains_key(device_id@),
            r matches Ok(cert) ==> cert@ == self.device_map()[device_id@].cert_spec(),
            r matches Err(e) ==> e == GatewayError::DeviceNotFound,
    {
        match self.devices.get(device_id) {
            Some(info) => Ok(clone_bytes(info.cert())),
            None => Err(GatewayError::DeviceNotFound),
        }
    }

    /// Replaces the certificate of `device_id` with `device_tee_cert` (one
    /// newly issued for the device's signing key) and returns it.
    pub fn refresh_device_cert(&mut self, device_id: &DeviceID, device_tee_cert: Vec<u8>) -> (r: Result<Vec<u8>, GatewayError>)
        ensures
            r is Ok <==> old(self).device_map().contains_key(device_id@),
            r matches Err(e) ==> e == GatewayError::DeviceNotFound && *final(self) == *old(self),
            r matches Ok(cert) ==> {
                let dev = final(self).device_map()[device_id@];
                &&& cert@ == device_tee_cert@
                &&& final(self).device_map() == old(self).device_map().insert(device_id@, dev)
                &&& dev.cert_spec() == device_tee_cert@
                &&& dev.same_except_cert(&old(self).device_map()[device_id@])
            },
            final(self).index_map() == old(self).index_map(),
            final(self).index_seq() == old(self).index_seq(),
            final(self).wallet_map() == old(self).wallet_map(),
            final(self).account_map() == old(self).account_map(),
    {
        proof {
            use_type_invariant(&*self);
        }
        if !self.devices.contains_key(device_id) {
            return Err(GatewayError::DeviceNotFound);
        }
        let mut devices = Table::new();
        std::mem::swap(&mut devices, &mut self.devices);
        let ghost before_devices = devices.map();
        match devices.remove(device_id) {
            Some(mut info) => {
                info.set_cert(device_tee_cert);
                let cert = clone_bytes(info.cert());
                devices.insert(clone_str(device_id), info);
                proof {
                    assert(devices.map() =~= before_devices.insert(device_id@, devices.map()[device_id@]));
                    assert forall|k: Seq<char>| #[trigger] devices.map().contains_key(k) implies devices.map()[k].id_spec() == k by {
                        if k != device_id@ {
                            assert(before_devices.contains_key(k));
                        }
                    }
                }
                self.devices = devices;
                Ok(cert)
            },
            None => {
                proof {
                    assert(false);
                }
                self.devices = devices;
                Err(GatewayError::DeviceNotFound)
            },
        }
    }

    /// A copy of the wallet `wallet_id`, if registered.
    pub fn get_wallet_info(&self, wallet_id: &WalletID) -> (r: Option<ConsoleWalletInfo>)
        ensures
            r is Some <==> self.wallet_map().contains_key(wallet_id@),
            r matches Some(w) ==> w.same_as(&self.wallet_map()[wallet_id@]) && w.wallet_id@ == wallet_id@,
    {
        proof {
            use_type_invariant(self);
        }
        match self.wallets.get(wallet_id) {
            Some(w) => Some(w.duplicate()),
            None => None,
        }
    }

    /// Stores `wallet_info_basic` under its own id.
    pub fn save_wallet_info(&mut self, wallet_info_basic: ConsoleWalletInfo)
        ensures
            final(self).wallet_map() == old(self).wallet_map().insert(
                wallet_info_basic.wallet_id@,
                wallet_info_basic,
            ),
            final(self).device_map() == old(self).device_map(),
            final(self).index_map() == old(self).index_map(),
            final(self).index_seq() == old(self).index_seq(),
            final(self).account_map() == old(self).account_map(),
    {
        proof {
            use_type_invariant(&*self);
        }
        let mut wallets = Table::new();
        std::mem::swap(&mut wallets, &mut self.wallets);
        let ghost before = wallets.map();
        let ghost w = wallet_info_basic;
        let key = clone_str(&wallet_info_basic.wallet_id);
        wallets.insert(key, wallet_info_basic);
        proof {
            assert forall|k: Seq<char>| #[trigger] wallets.map().contains_key(k) implies wallets.map()[k].wallet_id@ == k by {
                if k != w.wallet_id@ {
                    assert(before.contains_key(k));
                }
            }
        }
        self.wallets = wallets;
    }

    /// Stores `device_info` under its own id.
    pub fn put_device_info(&mut self, device_info: DeviceInfo)
        ensures
            final(self).device_map() == old(self).device_map().insert(device_info.id_spec(), device_info),
            final(self).wallet_map() == old(self).wallet_map(),
            final(self).index_map() == old(self).index_map(),
            final(self).index_seq() == old(self).index_seq(),
            final(self).account_map() == old(self).account_map(),
    {
        proof {
            use_type_invariant(&*self);
        }
        let mut devices = Table::new();
        std::mem::swap(&mut devices, &mut self.devices);
        let ghost before = devices.map();
        let ghost d = device_info;
        let key = clone_str(device_info.id());
        devices.insert(key, device_info);
        proof {
            assert forall|k: Seq<char>| #[trigger] devices.map().contains_key(k) implies devices.map()[k].id_spec() == k by {
                if k != d.id_spec() {
                    assert(before.contains_key(k));
                }
            }
        }
        self.devices = devices;
    }

    /// Stores `device_index` under its user's email.
    pub fn put_device_index(&mut self, device_index: DeviceIndex)
        requires
            device_index.devices().no_duplicates(),
        ensures
            final(self).index_map() == old(self).index_map().insert(device_index.email_spec(), device_index),
            final(self).device_map() == old(self).device_map(),
            final(self).wallet_map() == old(self).wallet_map(),
            final(self).account_map() == old(self).account_map(),
    {
        proof {
            use_type_invariant(&*self);
        }
        let mut index = Table::new();
        std::mem::swap(&mut index, &mut self.device_index);
        let ghost before = index.map();
        let ghost d = device_index;
        let key = clone_str(device_index.email());
        index.insert(key, device_index);
        proof {
            assert forall|k: Seq<char>| #[trigger] index.map().contains_key(k) implies {
                &&& index.map()[k].email_spec() == k
                &&& index.map()[k].devices().no_duplicates()
            } by {
                if k != d.email_spec() {
                    assert(before.contains_key(k));
                }
            }
        }
        self.device_index = index;
    }

    /// The public part of the device `device_id`, if registered.
    pub fn get_device_info(&self, device_id: &DeviceID) -> (r: Option<DeviceInfoBasic>)
        ensures
            r is Some <==> self.device_map().contains_key(device_id@),
            r matches Some(b) ==> {
                let dev = self.device_map()[device_id@];
                &&& b.owner@ == dev.owner_spec()
                &&& b.id@ == dev.id_spec()
                &&& b.register_time == dev.register_time_spec()
                &&& views(b.created_wallets@) == dev.created()
                &&& views(b.backed_up_wallets@) == dev.backed_up()
            },
    {
        match self.devices.get(device_id) {
            Some(info) => Some(info.basic()),
            None => None,
        }
    }

    /// The wallets of `device_id`: the created ones, then the backed-up
    /// ones.
    pub fn get_wallet_id_associated_with_device(&self, device_id: &DeviceID) -> (r: Result<Vec<WalletID>, GatewayError>)
        ensures
            r is Ok <==> self.device_map().contains_key(device_id@),
            r matches Ok(ids) ==> views(ids@) == self.device_map()[device_id@].created() + self.device_map()[device_id@].backed_up(),
            r matches Err(e) ==> e == GatewayError::DeviceNotFound,
    {
        match self.devices.get(device_id) {
            Some(info) => {
                let mut ids = clone_strs(info.created_wallets());
                let mut more = clone_strs(info.backed_up_wallets());
                let ghost a = ids@;
                let ghost b = more@;
                ids.append(&mut more);
                proof {
                    assert(views(ids@) =~= views(a) + views(b));
                }
                Ok(ids)
            },
            None => Err(GatewayError::DeviceNotFound),
        }
    }

    /// The account of `wallet_id`, if one is recorded.
    pub fn get_wallet_account(&self, wallet_id: &WalletID) -> (r: Option<AccountId>)
        ensures
            r is Some <==> self.account_map().contains_key(wallet_id@),
            r matches Some(a) ==> a == self.account_map()[wallet_id@].account_address,
    {
        match self.wallet_accounts.get(wallet_id) {
            Some(info) => Some(clone_str(&info.account_address)),
            None => None,
        }
    }

    /// Records `account` as the account of `wallet_id`.
    pub fn save_wallet_account(&mut self, wallet_id: &WalletID, account: &AccountId)
        ensures
            final(self).account_map().contains_key(wallet_id@),
            final(self).account_map()[wallet_id@].wallet_id@ == wallet_id@,
            final(self).account_map()[wallet_id@].account_address@ == account@,
            final(self).account_map().remove(wallet_id@) == old(self).account_map().remove(wallet_id@),
            final(self).device_map() == old(self).device_map(),
            final(self).wallet_map() == old(self).wallet_map(),
            final(self).index_map() == old(self).index_map(),
            final(self).index_seq() == old(self).index_seq(),
    {
        proof {
            use_type_invariant(&*self);
        }
        let info = WalletAccountInfo::new(clone_str(wallet_id), clone_str(account));
        let mut accounts = Table::new();
        std::mem::swap(&mut accounts, &mut self.wallet_accounts);
        let ghost before = accounts.map();
        accounts.insert(clone_str(wallet_id), info);
        proof {
            assert forall|k: Seq<char>| #[trigger] accounts.map().contains_key(k) implies accounts.map()[k].wallet_id@ == k by {
                if k != wallet_id@ {
                    assert(before.contains_key(k));
                }
            }
            assert(accounts.map().remove(wallet_id@) =~= before.remove(wallet_id@));
        }
        self.wallet_accounts = accounts;
    }

    /// The public parts of all devices of `email`, in index order; fails
    /// when the user has no index or a listed device is unknown.
    pub fn get_device_info_for_user(&self, email: &Email) -> (r: Result<Vec<DeviceInfoBasic>, GatewayError>)
        ensures
            !self.index_map().contains_key(email@) ==> r == Err::<Vec<DeviceInfoBasic>, GatewayError>(
                GatewayError::DeviceIndexNotFound,
            ),
            self.index_map().contains_key(email@) ==> {
                let ids = self.index_map()[email@].devices();
                &&& r is Ok <==> (forall|i: int| 0 <= i < ids.len() ==> self.device_map().contains_key(#[trigger] ids[i]))
                &&& r matches Err(e) ==> e == GatewayError::DeviceNotFound
                &&& r matches Ok(list) ==> list@.len() == ids.len() && forall|i: int| 0 <= i < ids.len() ==> {
                    let dev = self.device_map()[ids[i]];
                    &&& (#[trigger] list@[i]).id@ == ids[i]
                    &&& list@[i].owner@ == dev.owner_spec()
                    &&& list@[i].register_time == dev.register_time_spec()
                    &&& views(list@[i].created_wallets@) == dev.created()
                    &&& views(list@[i].backed_up_wallets@) == dev.backed_up()
                }
            },
    {
        let idx = match self.device_index.get(email) {
            Some(idx) => idx,
            None => {
                return Err(GatewayError::DeviceIndexNotFound);
            },
        };
        let ids = idx.device_list();
        let ghost dids = idx.devices();
        let mut out: Vec<DeviceInfoBasic> = Vec::new();
        let mut i: usize = 0;
        while i < ids.len()
            invariant
                i <= ids@.len(),
                views(ids@) == dids,
                self.index_map().contains_key(email@),
                dids == self.index_map()[email@].devices(),
                out@.len() == i,
                forall|j: int| 0 <= j < i ==> self.device_map().contains_key(#[trigger] dids[j]),
                forall|j: int| 0 <= j < i ==> {
                    let dev = self.device_map()[dids[j]];
                    &&& (#[trigger] out@[j]).id@ == dids[j]
                    &&& out@[j].owner@ == dev.owner_spec()
                    &&& out@[j].register_time == dev.register_time_spec()
                    &&& views(out@[j].created_wallets@) == dev.created()
                    &&& views(out@[j].backed_up_wallets@) == dev.backed_up()
                },
            decreases ids@.len() - i,
        {
            proof {
                assert(views(ids@)[i as int] == ids@[i as int]@);
            }
            match self.devices.get(&ids[i]) {
                Some(info) => {
                    out.push(info.basic());
                    proof {
                        use_type_invariant(self);
                        assert(self.devices.map().contains_key(dids[i as int]));
                    }
                },
                None => {
                    proof {
                        assert(dids == self.index_map()[email@].devices());
                        assert(views(ids@)[i as int] == ids@[i as int]@);
                        assert(!self.device_map().contains_key(dids[i as int]));
                    }
                    return Err(GatewayError::DeviceNotFound);
                },
            }
            i = i + 1;
        }
        proof {
            assert(dids.len() == ids@.len());
            assert(dids == self.index_map()[email@].devices());
        }
        Ok(out)
    }

    /// Registers `wallet_info_basic` as created on `device_id` after
    /// checking that the device exists, the wallet id is new, every
    /// approver is a registered approver, every operator a registered
    /// transaction operator, the device has room for another wallet and
    /// does not list the wallet yet.
    pub fn register_wallet(
        &mut self,
        user_registry: &UserRegistry,
        device_id: &DeviceID,
        wallet_info_basic: &ConsoleWalletInfo,
    ) -> (r: Result<WalletID, GatewayError>)
        ensures
            r is Err <==> register_wallet_problem(
                *old(self),
                user_registry.users(),
                device_id@,
                *wallet_info_basic,
            ) is Some,
            r matches Err(e) ==> Some(e) == register_wallet_problem(
                *old(self),
                user_registry.users(),
                device_id@,
                *wallet_info_basic,
            ) && *final(self) == *old(self),
            r matches Ok(id) ==> {
                let stored = final(self).wallet_map()[id@];
                let dev = final(self).device_map()[device_id@];
                let before = old(self).device_map()[device_id@];
                &&& id@ == wallet_info_basic.wallet_id@
                &&& final(self).wallet_map() == old(self).wallet_map().insert(id@, stored)
                &&& stored.same_as(wallet_info_basic)
                &&& final(self).device_map() == old(self).device_map().insert(device_id@, dev)
                &&& dev.created() == before.created().push(id@)
                &&& dev.backed_up() == before.backed_up()
                &&& dev.same_identity(&before)
            },
            r != Err::<WalletID, GatewayError>(GatewayError::ClockBeforeEpoch),
            final(self).index_map() == old(self).index_map(),
            final(self).index_seq() == old(self).index_seq(),
            final(self).account_map() == old(self).account_map(),
    {
        proof {
            use_type_invariant(&*self);
        }
        let ghost users = user_registry.users();
        let ghost w = *wallet_info_basic;
        let dev_count = match self.devices.get(device_id) {
            Some(dev) => dev.existing_wallets_num(),
            None => {
                return Err(GatewayError::DeviceNotFound);
            },
        };
        if self.wallets.contains_key(wallet_info_basic.id()) {
            return Err(GatewayError::WalletAlreadyExists);
        }
        proof {
            lemma_role_problem_kinds(users, chain_approvers(wallet_info_basic.approval_chain_basic.0@), Role::Approver, GatewayError::NotApprover);
            lemma_role_problem_kinds(users, views(wallet_info_basic.authorized_operators.0@), Role::TxOperator, GatewayError::NotTxOperator);
        }
        match check_chain_roles(user_registry, wallet_info_basic.approval_chain_basic()) {
            Some(e) => {
                return Err(e);
            },
            None => {},
        }
        match check_roles(user_registry, &wallet_info_basic.authorized_operators.0, Role::TxOperator, GatewayError::NotTxOperator) {
            Some(e) => {
                return Err(e);
            },
            None => {},
        }
        if dev_count >= MAX_WALLET_NUM_PER_DEVICE {
            return Err(GatewayError::TooManyWallets);
        }
        match self.devices.get(device_id) {
            Some(dev) => {
                if contains_str(dev.created_wallets(), wallet_info_basic.id()) {
                    return Err(GatewayError::WalletAlreadyCreatedOnDevice);
                }
                if contains_str(dev.backed_up_wallets(), wallet_info_basic.id()) {
                    return Err(GatewayError::WalletAlreadyBackedUpOnDevice);
                }
            },
            None => {
                return Err(GatewayError::DeviceNotFound);
            },
        }
        proof {
            assert(self.devices.map().contains_key(device_id@));
        }
        let mut devices = Table::new();
        std::mem::swap(&mut devices, &mut self.devices);
        let ghost before_devices = devices.map();
        let mut dev = match devices.remove(device_id) {
            Some(dev) => dev,
            None => {
                proof {
                    assert(false);
                }
                self.devices = devices;
                return Err(GatewayError::DeviceNotFound);
            },
        };
        let ghost dev0 = dev;
        let added = dev.add_owned_wallet(wallet_info_basic);
        proof {
            assert(added is Ok);
        }
        devices.insert(clone_str(device_id), dev);
        proof {
            assert forall|k: Seq<char>| #[trigger] devices.map().contains_key(k) implies devices.map()[k].id_spec() == k by {
                if k != device_id@ {
                    assert(before_devices.contains_key(k));
                }
            }
        }
        self.devices = devices;
        let stored = wallet_info_basic.duplicate();
        let id = clone_str(wallet_info_basic.id());
        let mut wallets = Table::new();
        std::mem::swap(&mut wallets, &mut self.wallets);
        let ghost before_wallets = wallets.map();
        wallets.insert(clone_str(&id), stored);
        proof {
            assert forall|k: Seq<char>| #[trigger] wallets.map().contains_key(k) implies wallets.map()[k].wallet_id@ == k by {
                if k != id@ {
                    assert(before_wallets.contains_key(k));
                }
            }
        }
        self.wallets = wallets;
        Ok(id)
    }

    /// Deletes the wallet `wallet_id` and takes it off the created wallets
    /// of the device that created it; fails, changing nothing, when the
    /// wallet or its device is unknown or the device does not list it.
    pub fn remove_wallet(&mut self, wallet_id: &WalletID) -> (r: Result<(), GatewayError>)
        ensures
            !old(self).wallet_map().contains_key(wallet_id@) ==> r == Err::<(), GatewayError>(
                GatewayError::WalletNotFound,
            ),
            old(self).wallet_map().contains_key(wallet_id@) ==> {
                let dev_id = old(self).wallet_map()[wallet_id@].created_by_device@;
                &&& !old(self).device_map().contains_key(dev_id) ==> r == Err::<(), GatewayError>(
                    GatewayError::DeviceNotFound,
                )
                &&& old(self).device_map().contains_key(dev_id) && !old(self).device_map()[dev_id].created().contains(wallet_id@)
                    ==> r == Err::<(), GatewayError>(GatewayError::WalletNotOwnedByDevice)
                &&& old(self).device_map().contains_key(dev_id) && old(self).device_map()[dev_id].created().contains(wallet_id@)
                    ==> {
                    let before = old(self).device_map()[dev_id];
                    let dev = final(self).device_map()[dev_id];
                    &&& r is Ok
                    &&& final(self).wallet_map() == old(self).wallet_map().remove(wallet_id@)
                    &&& final(self).device_map() == old(self).device_map().insert(dev_id, dev)
                    &&& dev.created() == before.created().remove(before.created().index_of(wallet_id@))
                    &&& dev.backed_up() == before.backed_up()
                    &&& dev.same_identity(&before)
                }
            },
            r is Err ==> *final(self) == *old(self),
            final(self).index_map() == old(self).index_map(),
            final(self).index_seq() == old(self).index_seq(),
            final(self).account_map() == old(self).account_map(),
    {
        proof {
            use_type_invariant(&*self);
        }
        let device_id = match self.wallets.get(wallet_id) {
            Some(w) => clone_str(&w.created_by_device),
            None => {
                return Err(GatewayError::WalletNotFound);
            },
        };
        match self.devices.get(&device_id) {
            Some(dev) => {
                if !contains_str(dev.created_wallets(), wallet_id) {
                    return Err(GatewayError::WalletNotOwnedByDevice);
                }
            },
            None => {
                return Err(GatewayError::DeviceNotFound);
            },
        }
        proof {
            assert(self.devices.map().contains_key(device_id@));
        }
        let mut devices = Table::new();
        std::mem::swap(&mut devices, &mut self.devices);
        let ghost before_devices = devices.map();
        let mut dev = match devices.remove(&device_id) {
            Some(dev) => dev,
            None => {
                proof {
                    assert(false);
                }
                self.devices = devices;
                return Err(GatewayError::DeviceNotFound);
            },
        };
        let removed = dev.remove_owned_wallet(wallet_id);
        proof {
            assert(removed is Ok);
        }
        devices.insert(clone_str(&device_id), dev);
        proof {
            assert forall|k: Seq<char>| #[trigger] devices.map().contains_key(k) implies devices.map()[k].id_spec() == k by {
                if k != device_id@ {
                    assert(before_devices.contains_key(k));
                }
            }
        }
        self.devices = devices;
        let mut wallets = Table::new();
        std::mem::swap(&mut wallets, &mut self.wallets);
        let ghost before_wallets = wallets.map();
        wallets.remove(wallet_id);
        proof {
            assert forall|k: Seq<char>| #[trigger] wallets.map().contains_key(k) implies wallets.map()[k].wallet_id@ == k by {
                assert(before_wallets.contains_key(k));
            }
        }
        self.wallets = wallets;
        Ok(())
    }

    /// Lets the device `backup_device_info_basic.device_id` take backups of
    /// wallets created by `from_device_id`: every listed wallet (all
    /// wallets the source device created, when the list is empty) must
    /// exist, be created by the source device and fit on the receiving
    /// device. Wallets are processed in order; each one that passes is
    /// marked as backed up on the receiving device at once, so a failure
    /// keeps the marks made before it, but the receiving device's record
    /// is stored only when every wallet passed. Returns what the CA signs,
    /// stamped with `now`.
    pub fn export_backup_device_list(
        &mut self,
        from_device_id: &DeviceID,
        backup_device_info_basic: &BackupDeviceInfoBasic,
        now: u64,
    ) -> (r: Result<BackupListToSign, GatewayError>)
        ensures
            backup_result(*old(self), *final(self), from_device_id@, *backup_device_info_basic, now, r),
            r != Err::<BackupListToSign, GatewayError>(GatewayError::ClockBeforeEpoch),
            final(self).index_map() == old(self).index_map(),
            final(self).index_seq() == old(self).index_seq(),
            final(self).account_map() == old(self).account_map(),
    {
        proof {
            use_type_invariant(&*self);
        }
        let from_created: Vec<WalletID> = match self.devices.get(from_device_id) {
            Some(dev) => clone_strs(dev.created_wallets()),
            None => {
                return Err(GatewayError::DeviceNotFound);
            },
        };
        let to_id = &backup_device_info_basic.device_id;
        if !self.devices.contains_key(to_id) {
            return Err(GatewayError::DeviceNotFound);
        }
        let list: Vec<WalletID> = if backup_device_info_basic.wallet_id_list.len() == 0 {
            clone_strs(&from_created)
        } else {
            clone_strs(&backup_device_info_basic.wallet_id_list)
        };
        let ghost old_wallets = self.wallets.map();
        let ghost from_c = views(from_created@);
        let mut to = match self.devices.get(to_id) {
            Some(dev) => dev.duplicate(),
            None => {
                return Err(GatewayError::DeviceNotFound);
            },
        };
        let ghost to0 = to;
        let mut wallets = Table::new();
        std::mem::swap(&mut wallets, &mut self.wallets);
        let ghost mut done: Seq<Seq<char>> = Seq::empty();
        let mut i: usize = 0;
        proof {
            assert(views(list@).take(0) =~= Seq::<Seq<char>>::empty());
        }
        while i < list.len()
            invariant
                i <= list@.len(),
                (done, to.backed_up(), None::<GatewayError>) == backup_plan(
                    old_wallets,
                    from_device_id@,
                    from_c,
                    to0.created().len(),
                    to0.backed_up(),
                    views(list@).take(i as int),
                ),
                to.created() == to0.created(),
                to.same_identity(&to0),
                wallets.key_seq().no_duplicates(),
                wallets.map().dom() == old_wallets.dom(),
                forall|k: Seq<char>| #[trigger] wallets.map().contains_key(k) ==> wallets.map()[k].wallet_id@ == k,
                forall|k: Seq<char>| #[trigger] old_wallets.contains_key(k) ==> {
                    &&& done.contains(k) ==> backup_added(old_wallets[k], wallets.map()[k], to_id@)
                    &&& !done.contains(k) ==> wallets.map()[k] == old_wallets[k]
                },
                views(from_created@) == from_c,
                old(self).wf(),
                to_id@ == backup_device_info_basic.device_id@,
                from_c == old(self).devices.map()[from_device_id@].created(),
                views(list@) == (if backup_device_info_basic.wallet_id_list@.len() == 0 {
                    from_c
                } else {
                    views(backup_device_info_basic.wallet_id_list@)
                }),
                self.wallets.key_seq().no_duplicates(),
                self.wallets.map() == Map::<Seq<char>, ConsoleWalletInfo>::empty(),
                self.device_index == old(self).device_index,
                self.devices == old(self).devices,
                self.wallet_accounts == old(self).wallet_accounts,
                old_wallets == old(self).wallets.map(),
                old(self).devices.map().contains_key(from_device_id@),
                old(self).devices.map().contains_key(to_id@),
                to0.same_identity(&old(self).devices.map()[to_id@]),
                to0.created() == old(self).devices.map()[to_id@].created(),
                to0.backed_up() == old(self).devices.map()[to_id@].backed_up(),
            decreases list@.len() - i,
        {
            let id = &list[i];
            let ghost idv = id@;
            proof {
                assert(views(list@).take(i as int + 1).drop_last() =~= views(list@).take(i as int));
                assert(views(list@).take(i as int + 1).last() == idv);
            }
            let created_by = match wallets.get(id) {
                Some(w) => clone_str(&w.created_by_device),
                None => {
                    proof {
                        assert(!old_wallets.contains_key(idv));
                        lemma_backup_plan_stops(old_wallets, from_device_id@, from_c, to0.created().len(), to0.backed_up(), views(list@), i as int + 1);
                    }
                    self.wallets = wallets;
                    return Err(GatewayError::WalletNotFound);
                },
            };
            proof {
                assert(old_wallets.contains_key(idv));
                assert(created_by@ == old_wallets[idv].created_by_device@);
            }
            if !contains_str(&from_created, id) || !created_by.eq(from_device_id) {
                proof {
                    lemma_backup_plan_stops(old_wallets, from_device_id@, from_c, to0.created().len(), to0.backed_up(), views(list@), i as int + 1);
                }
                self.wallets = wallets;
                return Err(GatewayError::WalletNotOwnedByDevice);
            }
            if to.existing_wallets_num() >= MAX_WALLET_NUM_PER_DEVICE {
                proof {
                    lemma_backup_plan_stops(old_wallets, from_device_id@, from_c, to0.created().len(), to0.backed_up(), views(list@), i as int + 1);
                }
                self.wallets = wallets;
                return Err(GatewayError::TooManyWallets);
            }
            let ghost cur_map = wallets.map();
            let mut w = match wallets.remove(id) {
                Some(w) => w,
                None => {
                    proof {
                        assert(false);
                    }
                    self.wallets = wallets;
                    return Err(GatewayError::WalletNotFound);
                },
            };
            let ghost w0 = w;
            w.add_backup_device(clone_str(to_id));
            proof {
                assert(backup_added(w0, w, to_id@));
                lemma_chain_same_as_trans(w.approval_chain_basic, w0.approval_chain_basic, old_wallets[idv].approval_chain_basic);
            }
            wallets.insert(clone_str(id), w);
            let added = to.add_backup_wallet(id);
            proof {
                let old_done = done;
                done = done.push(idv);
                assert forall|k: Seq<char>| #[trigger] old_wallets.contains_key(k) implies {
                    &&& done.contains(k) ==> backup_added(old_wallets[k], wallets.map()[k], to_id@)
                    &&& !done.contains(k) ==> wallets.map()[k] == old_wallets[k]
                } by {
                    if k == idv {
                        assert(done[done.len() - 1] == k);
                        if old_done.contains(k) {
                            lemma_backup_added_trans(old_wallets[k], w0, w, to_id@);
                        } else {
                            assert(w0 == old_wallets[k]);
                        }
                    } else {
                        assert(cur_map.contains_key(k));
                        if done.contains(k) {
                            let j = choose|j: int| 0 <= j < done.len() && done[j] == k;
                            assert(old_done[j] == k);
                        }
                        if old_done.contains(k) {
                            let j = choose|j: int| 0 <= j < old_done.len() && old_done[j] == k;
                            assert(done[j] == k);
                        }
                    }
                }
                assert(wallets.map().dom() =~= old_wallets.dom());
                assert forall|k: Seq<char>| #[trigger] wallets.map().contains_key(k) implies wallets.map()[k].wallet_id@ == k by {
                    if k != idv {
                        assert(cur_map.contains_key(k));
                    }
                }
            }
            i = i + 1;
        }
        proof {
            assert(views(list@).take(list@.len() as int) =~= views(list@));
        }
        let wallet_ids: Vec<WalletID> = if backup_device_info_basic.wallet_id_list.len() == 0 {
            Vec::new()
        } else {
            clone_strs(to.backed_up_wallets())
        };
        let out = BackupListToSign {
            device_id: clone_str(to_id),
            backup_pubkey: to.backup_pubkey().duplicate(),
            wallet_ids,
            timestamp: now,
        };
        let mut devices = Table::new();
        std::mem::swap(&mut devices, &mut self.devices);
        let ghost before_devices = devices.map();
        devices.insert(clone_str(to_id), to);
        proof {
            assert forall|k: Seq<char>| #[trigger] devices.map().contains_key(k) implies devices.map()[k].id_spec() == k by {
                if k != to_id@ {
                    assert(before_devices.contains_key(k));
                }
            }
        }
        self.devices = devices;
        self.wallets = wallets;
        Ok(out)
    }

    /// What the CA signs as the configuration of `device_id`: every wallet
    /// the device holds and every approver and operator of those wallets
    /// with their public keys and roles, under `config_version`. Fails when
    /// the device, one of its wallets or one of the participants is unknown.
    pub fn export_wallet_info(
        &self,
        user_registry: &UserRegistry,
        device_id: &DeviceID,
        config_version: u64,
    ) -> (r: Result<WalletConfigToSign, GatewayError>)
        ensures
            wallet_config_result(*self, user_registry.users(), device_id@, config_version, r),
    {
        proof {
            use_type_invariant(self);
        }
        let ids = match self.devices.get(device_id) {
            Some(dev) => dev.wallet_id_list(),
            None => {
                return Err(GatewayError::DeviceNotFound);
            },
        };
        let ghost wmap = self.wallet_map();
        let ghost ids_v = views(ids@);
        let ghost dev = self.device_map()[device_id@];
        let ghost id_set = dev.created().to_set().union(dev.backed_up().to_set());
        let mut wallets: Vec<ConsoleWalletInfo> = Vec::new();
        let mut people: Vec<Email> = Vec::new();
        let mut i: usize = 0;
        proof {
            assert(ids_v.take(0).to_set() =~= Set::<Seq<char>>::empty());
            assert(view_set(people@) =~= config_participants(wmap, Set::<Seq<char>>::empty()));
            assert(wallet_ids_of(wallets@) =~= ids_v.take(0));
        }
        while i < ids.len()
            invariant
                i <= ids@.len(),
                ids_v == views(ids@),
                self.device_map().contains_key(device_id@),
                dev == self.device_map()[device_id@],
                id_set == dev.created().to_set().union(dev.backed_up().to_set()),
                ids_v.to_set() == id_set,
                wmap == self.wallet_map(),
                forall|k: Seq<char>| #[trigger] wmap.contains_key(k) ==> wmap[k].wallet_id@ == k,
                wallets@.len() == i,
                wallet_ids_of(wallets@) == ids_v.take(i as int),
                forall|j: int| 0 <= j < i ==> wmap.contains_key(#[trigger] ids_v[j]),
                forall|j: int| 0 <= j < i ==> (#[trigger] wallets@[j]).same_as(&wmap[wallets@[j].wallet_id@]),
                view_set(people@) == config_participants(wmap, ids_v.take(i as int).to_set()),
                views(people@).no_duplicates(),
            decreases ids@.len() - i,
        {
            proof {
                assert(ids_v[i as int] == ids@[i as int]@);
            }
            match self.wallets.get(&ids[i]) {
                Some(w) => {
                    let ghost before = wallets@;
                    proof {
                        assert(wmap.contains_key(ids_v[i as int]));
                        assert(w.wallet_id@ == ids_v[i as int]);
                    }
                    wallets.push(w.duplicate());
                    let more = w.distinct_participants();
                    people = union_strs(&people, &more);
                    proof {
                        assert(ids_v.take(i as int + 1) =~= ids_v.take(i as int).push(ids_v[i as int]));
                        assert(wallet_ids_of(wallets@) =~= wallet_ids_of(before).push(ids_v[i as int]));
                        crate::model::lemma_seq_push_to_set(ids_v.take(i as int), ids_v[i as int]);
                        lemma_config_participants_insert(wmap, ids_v.take(i as int).to_set(), ids_v[i as int]);
                    }
                },
                None => {
                    proof {
                        assert(ids_v.to_set().contains(ids_v[i as int]));
                    }
                    return Err(GatewayError::WalletNotFound);
                },
            }
            i = i + 1;
        }
        proof {
            assert(ids_v.take(i as int) =~= ids_v);
            assert forall|x: Seq<char>| id_set.contains(x) implies wmap.contains_key(x) by {
                assert(ids_v.to_set().contains(x));
                let k = choose|k: int| 0 <= k < ids_v.len() && ids_v[k] == x;
            }
        }
        let mut users: Vec<TaUserEntry> = Vec::new();
        let mut j: usize = 0;
        proof {
            assert(entry_emails(users@) =~= views(people@).take(0));
        }
        while j < people.len()
            invariant
                j <= people@.len(),
                self.device_map().contains_key(device_id@),
                dev == self.device_map()[device_id@],
                id_set == dev.created().to_set().union(dev.backed_up().to_set()),
                ids_v.to_set() == id_set,
                wmap == self.wallet_map(),
                id_set.subset_of(wmap.dom()),
                view_set(people@) == config_participants(wmap, id_set),
                entry_emails(users@) == views(people@).take(j as int),
                forall|k: int| 0 <= k < j ==> user_registry.users().contains_key(#[trigger] views(people@)[k]),
                forall|k: int| 0 <= k < users@.len() ==> {
                    let u = user_registry.users()[(#[trigger] users@[k]).email@];
                    &&& users@[k].pub_key.0@ == u.pub_key.0@
                    &&& users@[k].roles.0@ == u.roles.0@
                },
            decreases people@.len() - j,
        {
            proof {
                assert(views(people@)[j as int] == people@[j as int]@);
            }
            match user_registry.get_info(&people[j]) {
                Ok(info) => {
                    let ghost before = users@;
                    users.push(TaUserEntry {
                        email: clone_str(&people[j]),
                        pub_key: info.pub_key,
                        roles: info.roles,
                    });
                    proof {
                        assert(views(people@).take(j as int + 1) =~= views(people@).take(j as int).push(people@[j as int]@));
                        assert(entry_emails(users@) =~= entry_emails(before).push(people@[j as int]@));
                    }
                },
                Err(_) => {
                    proof {
                        assert(view_set(people@).contains(people@[j as int]@));
                    }
                    return Err(GatewayError::UserNotFound);
                },
            }
            j = j + 1;
        }
        proof {
            assert(views(people@).take(j as int) =~= views(people@));
            let ids_set = ids_v.to_set();
            assert forall|e: Seq<char>| config_participants(wmap, ids_set).contains(e) implies user_registry.users().contains_key(e) by {
                assert(view_set(people@).contains(e));
                let k = choose|k: int| 0 <= k < views(people@).len() && views(people@)[k] == e;
            }
        }
        Ok(WalletConfigToSign { users, wallets, config_version })
    }
}

} // verus!
