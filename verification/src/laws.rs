//! What holds across the operations of the library: storage keys that
//! never collide, reads that give back writes, removals that undo
//! registrations, the bounded week of gas prices, balances, and the
//! lifetime of delegations, devices with one owner each and within their
//! wallet limit, wallets naming registered users only, and the role a
//! user acts in.
use vstd::prelude::*;
use crate::balance::available_amount;
use crate::asset::CkAmount;
use crate::credential::{expiry_of, TxDelegation};
use crate::device_info::{DeviceIndex, DeviceInfo};
use crate::device_registry::{backup_plan, backup_result, register_wallet_problem, BackupListToSign, DeviceRegistry};
use crate::device_info::BackupDeviceInfoBasic;
use crate::error::GatewayError;
use crate::model::{chain_approvers, lemma_same_chain_approvers, Role};
use crate::state_manager::{lemma_last_edit_bounds, update_result};
use crate::user_info::{primary_role, User};
use crate::wallet::UpdateConsoleWalletInfo;
use crate::gas_price::{lemma_seq_max_bounds, seq_max, window_push, MAX_GAS_PRICE_ENTRIES};
use crate::model::MAX_WALLET_NUM_PER_DEVICE;
use crate::nickname::NicknameInfo;
use crate::state_manager::SharedStateManager;
use crate::storage::{storage_key_of, KvStore};
use crate::user_info::UserInfo;

verus! {

/// Two records stored under the same key are the same record of the same
/// table: as long as table names hold no `#`, a storage key determines its
/// table and its id.
pub proof fn law_storage_key_unambiguous(table1: Seq<char>, id1: Seq<char>, table2: Seq<char>, id2: Seq<char>)
    requires
        !table1.contains('#'),
        !table2.contains('#'),
        storage_key_of(table1, id1) == storage_key_of(table2, id2),
    ensures
        table1 == table2,
        id1 == id2,
{
    let k = storage_key_of(table1, id1);
    assert(k[table1.len() as int] == '#');
    assert(k[table2.len() as int] == '#');
    if table1.len() < table2.len() {
        assert(k[table1.len() as int] == table2[table1.len() as int]);
        assert(table2.contains('#'));
    }
    if table2.len() < table1.len() {
        assert(k[table2.len() as int] == table1[table2.len() as int]);
        assert(table1.contains('#'));
    }
    assert(table1 =~= k.subrange(0, table1.len() as int));
    assert(table2 =~= k.subrange(0, table2.len() as int));
    assert(id1 =~= k.subrange(table1.len() as int + 1, k.len() as int));
    assert(id2 =~= k.subrange(table2.len() as int + 1, k.len() as int));
}

/// After `put` stores a value under a key, `get` of that key answers the
/// value, and `get` of any other key answers what it answered before.
pub proof fn law_store_get_after_put(before: KvStore, after: KvStore, key: Seq<u8>, value: Seq<u8>)
    requires
        after.entries() == before.entries().insert(key, value),
    ensures
        after.entries().contains_key(key),
        after.entries()[key] == value,
        forall|other: Seq<u8>|
            other != key ==> #[trigger] after.entries().contains_key(other) == before.entries().contains_key(other)
                && (after.entries().contains_key(other) ==> after.entries()[other] == before.entries()[other]),
{
}

/// After `delete` of a key, `get` of that key answers nothing, and `get` of
/// any other key answers what it answered before.
pub proof fn law_store_get_after_delete(before: KvStore, after: KvStore, key: Seq<u8>)
    requires
        after.entries() == before.entries().remove(key),
    ensures
        !after.entries().contains_key(key),
        forall|other: Seq<u8>|
            other != key ==> #[trigger] after.entries().contains_key(other) == before.entries().contains_key(other)
                && (after.entries().contains_key(other) ==> after.entries()[other] == before.entries()[other]),
{
}

/// Deleting a key that a `put` has just added to the store gives back the
/// store as it was.
pub proof fn law_store_delete_undoes_put(before: KvStore, mid: KvStore, after: KvStore, key: Seq<u8>, value: Seq<u8>)
    requires
        !before.entries().contains_key(key),
        mid.entries() == before.entries().insert(key, value),
        after.entries() == mid.entries().remove(key),
    ensures
        after.entries() == before.entries(),
{
    assert(after.entries() =~= before.entries());
}

/// After a nickname is set for a key, it is the key's nickname; removing it
/// leaves the key without one; the other keys keep theirs either way.
pub proof fn law_nickname_get_after_set(before: NicknameInfo, after: NicknameInfo, key: Seq<char>, name: Seq<char>)
    requires
        after.names() == before.names().insert(key, name),
    ensures
        after.names().contains_key(key) && after.names()[key] == name,
        after.names().remove(key) == before.names().remove(key),
{
    assert(after.names().remove(key) =~= before.names().remove(key));
}

/// After a nickname is removed, the key has none and the other keys keep
/// theirs; removing a nickname that was just given to a key without one
/// gives back the nicknames as they were.
pub proof fn law_nickname_remove(before: NicknameInfo, mid: NicknameInfo, after: NicknameInfo, key: Seq<char>, name: Seq<char>)
    requires
        mid.names() == before.names().insert(key, name),
        after.names() == mid.names().remove(key),
    ensures
        !after.names().contains_key(key),
        after.names() == before.names().remove(key),
        !before.names().contains_key(key) ==> after.names() == before.names(),
{
    assert(after.names() =~= before.names().remove(key));
    if !before.names().contains_key(key) {
        assert(before.names().remove(key) =~= before.names());
    }
}

/// A wallet can only be registered on an existing device that has room for
/// another wallet (fewer than the limit, created and backed-up ones
/// together), under an id not registered before.
pub proof fn law_register_wallet_needs_room(
    reg: DeviceRegistry,
    users: Map<Seq<char>, UserInfo>,
    device: Seq<char>,
    wallet: crate::wallet::ConsoleWalletInfo,
)
    requires
        register_wallet_problem(reg, users, device, wallet) is None,
    ensures
        reg.device_map().contains_key(device),
        reg.device_map()[device].count() < MAX_WALLET_NUM_PER_DEVICE,
        !reg.wallet_map().contains_key(wallet.wallet_id@),
        !reg.device_map()[device].created().contains(wallet.wallet_id@),
{
}

/// Removing a wallet just registered on a device gives back the wallet
/// table and the device's wallet lists as they were before the
/// registration.
pub proof fn law_remove_undoes_register(r0: DeviceRegistry, r1: DeviceRegistry, r2: DeviceRegistry, device: Seq<char>, id: Seq<char>)
    requires
        r0.device_map().contains_key(device),
        !r0.wallet_map().contains_key(id),
        !r0.device_map()[device].created().contains(id),
        r1.wallet_map() == r0.wallet_map().insert(id, r1.wallet_map()[id]),
        r1.device_map() == r0.device_map().insert(device, r1.device_map()[device]),
        r1.device_map()[device].created() == r0.device_map()[device].created().push(id),
        r1.device_map()[device].backed_up() == r0.device_map()[device].backed_up(),
        r2.wallet_map() == r1.wallet_map().remove(id),
        r2.device_map() == r1.device_map().insert(device, r2.device_map()[device]),
        r2.device_map()[device].created() == r1.device_map()[device].created().remove(
            r1.device_map()[device].created().index_of(id),
        ),
        r2.device_map()[device].backed_up() == r1.device_map()[device].backed_up(),
    ensures
        r2.wallet_map() == r0.wallet_map(),
        r2.device_map().dom() == r0.device_map().dom(),
        r2.device_map()[device].created() == r0.device_map()[device].created(),
        r2.device_map()[device].backed_up() == r0.device_map()[device].backed_up(),
{
    let c0 = r0.device_map()[device].created();
    let c1 = c0.push(id);
    assert(c1[c0.len() as int] == id);
    assert(c1.contains(id));
    let i = c1.index_of(id);
    assert(c1[i] == id);
    if i < c0.len() {
        assert(c0[i] == id);
        assert(c0.contains(id));
    }
    assert(i == c0.len());
    assert(c1.remove(i) =~= c0);
    assert(r2.wallet_map() =~= r0.wallet_map());
    assert(r2.device_map().dom() =~= r0.device_map().dom());
}

/// The gas prices kept never exceed a week (336 samples): after a new
/// price arrives it is the latest one kept, and the reported maximum is at
/// least every kept price, the new one included, and is one of them.
pub proof fn law_gas_price_week(history: Seq<u128>, price: u128)
    requires
        history.len() <= MAX_GAS_PRICE_ENTRIES,
    ensures
        window_push(history, price).len() <= MAX_GAS_PRICE_ENTRIES,
        window_push(history, price).last() == price,
        price <= seq_max(window_push(history, price)),
        forall|i: int|
            0 <= i < window_push(history, price).len() ==> #[trigger] window_push(history, price)[i] <= seq_max(
                window_push(history, price),
            ),
        window_push(history, price).contains(seq_max(window_push(history, price))),
{
    let w = window_push(history, price);
    lemma_seq_max_bounds(w);
    assert(w[w.len() - 1] == price);
}

/// What is available plus what is on hold is the balance on chain, of the
/// same asset, whenever no more than the balance is on hold.
pub proof fn law_available_plus_onhold(balance: CkAmount, onhold: u128)
    requires
        onhold <= balance.value,
    ensures
        available_amount(balance, onhold).value + onhold == balance.value,
        available_amount(balance, onhold).asset_type == balance.asset_type,
{
}

/// A delegation started at `start` has expired at `now` exactly when more
/// than its valid duration has passed since `start`; it is not expired
/// when it starts, and once expired it stays expired at every later time.
pub proof fn law_delegation_expiry<T>(d: TxDelegation<T>, start: u64, now: u64, later: u64)
    requires
        d.expiration_time == expiry_of(start, d.delegation_info.valid_duration),
        now <= later,
    ensures
        (now > d.expiration_time) == (now > start + d.delegation_info.valid_duration),
        !(start > d.expiration_time),
        now > d.expiration_time ==> later > d.expiration_time,
{
}

/// A user that registered is found by email with the record stored, and
/// the other users stay as they were.
pub proof fn law_registered_user_is_found(before: SharedStateManager, after: SharedStateManager, email: Seq<char>, stored: UserInfo)
    requires
        after.users() == before.users().insert(email, stored),
    ensures
        after.users().contains_key(email),
        after.users()[email] == stored,
        after.users().remove(email) == before.users().remove(email),
{
    assert(after.users().remove(email) =~= before.users().remove(email));
}


/// No device is listed in the indexes of two users.
pub open spec fn one_owner_per_device(indexes: Map<Seq<char>, DeviceIndex>) -> bool {
    forall|e1: Seq<char>, e2: Seq<char>, d: Seq<char>|
        #![trigger indexes[e1].devices().contains(d), indexes[e2].devices().contains(d)]
        indexes.contains_key(e1) && indexes.contains_key(e2) && indexes[e1].devices().contains(d)
            && indexes[e2].devices().contains(d) ==> e1 == e2
}

/// Every device has at most one owner, and registering a device keeps it
/// so: a registration is refused when some user's index already lists
/// the device, and otherwise only the registering user's index gains it.
pub proof fn law_one_owner_per_device(
    before: DeviceRegistry,
    after: DeviceRegistry,
    email: Seq<char>,
    device: Seq<char>,
    refused: bool,
    idx: DeviceIndex,
)
    requires
        one_owner_per_device(before.index_map()),
        refused <==> exists|e: Seq<char>|
            #![trigger before.index_map()[e]]
            before.index_map().contains_key(e) && before.index_map()[e].devices().contains(device),
        refused ==> after == before,
        !refused ==> after.index_map() == before.index_map().insert(email, idx),
        !refused && before.index_map().contains_key(email) ==> idx.devices() == before.index_map()[email].devices().push(
            device,
        ),
        !refused && !before.index_map().contains_key(email) ==> idx.devices() == seq![device],
    ensures
        one_owner_per_device(after.index_map()),
{
    if !refused {
        let m0 = before.index_map();
        let m1 = after.index_map();
        assert forall|e1: Seq<char>, e2: Seq<char>, d: Seq<char>|
            m1.contains_key(e1) && m1.contains_key(e2) && #[trigger] m1[e1].devices().contains(d)
                && #[trigger] m1[e2].devices().contains(d) implies e1 == e2 by {
            // where each of the two listings of `d` comes from
            assert(e1 != email ==> m1[e1] == m0[e1] && m0.contains_key(e1));
            assert(e2 != email ==> m1[e2] == m0[e2] && m0.contains_key(e2));
            if e1 == email && e2 != email {
                if m0.contains_key(email) {
                    let old_list = m0[email].devices();
                    assert(idx.devices().contains(d));
                    let k = choose|k: int| 0 <= k < idx.devices().len() && idx.devices()[k] == d;
                    if k < old_list.len() {
                        assert(old_list[k] == d);
                        assert(m0[email].devices().contains(d));
                    } else {
                        assert(d == device);
                        assert(m0[e2].devices().contains(device));
                    }
                } else {
                    assert(idx.devices()[0] == device);
                    assert(m0[e2].devices().contains(device));
                }
            } else if e2 == email && e1 != email {
                if m0.contains_key(email) {
                    let old_list = m0[email].devices();
                    let k = choose|k: int| 0 <= k < idx.devices().len() && idx.devices()[k] == d;
                    if k < old_list.len() {
                        assert(old_list[k] == d);
                        assert(m0[email].devices().contains(d));
                    } else {
                        assert(d == device);
                        assert(m0[e1].devices().contains(device));
                    }
                } else {
                    assert(idx.devices()[0] == device);
                    assert(m0[e1].devices().contains(device));
                }
            }
        }
    }
}


/// On a device, removing a wallet just added to its created wallets gives
/// back both of its wallet lists as they were.
pub proof fn law_device_remove_undoes_add(d0: DeviceInfo, d1: DeviceInfo, d2: DeviceInfo, id: Seq<char>)
    requires
        !d0.created().contains(id),
        !d0.backed_up().contains(id),
        d1.created() == d0.created().push(id),
        d1.backed_up() == d0.backed_up(),
        d2.created() == d1.created().remove(d1.created().index_of(id)),
        d2.backed_up() == d1.backed_up(),
    ensures
        d2.created() == d0.created(),
        d2.backed_up() == d0.backed_up(),
{
    let c0 = d0.created();
    let c1 = c0.push(id);
    assert(c1[c0.len() as int] == id);
    assert(c1.contains(id));
    let i = c1.index_of(id);
    assert(c1[i] == id);
    if i < c0.len() {
        assert(c0[i] == id);
        assert(c0.contains(id));
    }
    assert(c1.remove(i) =~= c0);
}


/// Wallet edits only ever name registered users: when the edits succeed,
/// every approver of each edit's approval chain and every operator it
/// authorizes is a registered user; and, whether they succeed or stop at
/// a refused edit, every wallet they change ends up with registered
/// approvers and operators only.
pub proof fn law_wallet_edits_name_registered_users(
    before: SharedStateManager,
    after: SharedStateManager,
    device: Seq<char>,
    list: Seq<UpdateConsoleWalletInfo>,
    now: u64,
    r: Result<Vec<crate::wallet::ConsoleWalletInfo>, GatewayError>,
)
    requires
        update_result(before, after, device, list, now, r),
    ensures
        r is Ok ==> forall|i: int|
            0 <= i < list.len() ==> {
                &&& (#[trigger] list[i]).authorized_operators.operator_set().subset_of(before.users().dom())
                &&& chain_approvers(list[i].approval_chain_basic.0@).to_set().subset_of(before.users().dom())
            },
        forall|id: Seq<char>|
            #[trigger] before.wallets().contains_key(id) && after.wallets()[id] != before.wallets()[id] ==> {
                &&& after.wallets()[id].authorized_operators.operator_set().subset_of(before.users().dom())
                &&& chain_approvers(after.wallets()[id].approval_chain_basic.0@).to_set().subset_of(
                    before.users().dom(),
                )
            },
{
    let users = before.users();
    let w0 = before.wallets();
    if before.device_reg().device_map().contains_key(device) {
        let created = before.device_reg().device_map()[device].created();
        // the number of edits made, each accepted
        let k: int = if r is Ok {
            list.len() as int
        } else {
            choose|k: int|
                0 <= k < list.len() && #[trigger] crate::state_manager::update_problem(w0, created, device, users, list[k])
                    == Some(r->Err_0) && (forall|j: int|
                    0 <= j < k ==> #[trigger] crate::state_manager::update_problem(w0, created, device, users, list[j])
                        is None) && crate::state_manager::edits_applied(w0, after.wallets(), list, k, now)
        };
        assert(0 <= k <= list.len());
        assert(forall|j: int| 0 <= j < k ==> #[trigger] crate::state_manager::update_problem(w0, created, device, users, list[j]) is None);
        assert(crate::state_manager::edits_applied(w0, after.wallets(), list, k, now));
        assert forall|j: int| 0 <= j < k implies {
            &&& (#[trigger] list[j]).authorized_operators.operator_set().subset_of(users.dom())
            &&& chain_approvers(list[j].approval_chain_basic.0@).to_set().subset_of(users.dom())
        } by {
            assert(crate::state_manager::update_problem(w0, created, device, users, list[j]) is None);
            assert(crate::state_manager::update_participants(list[j]).subset_of(users.dom()));
        }
        assert forall|id: Seq<char>|
            #[trigger] w0.contains_key(id) && after.wallets()[id] != w0[id] implies {
                &&& after.wallets()[id].authorized_operators.operator_set().subset_of(users.dom())
                &&& chain_approvers(after.wallets()[id].approval_chain_basic.0@).to_set().subset_of(users.dom())
            } by {
            lemma_last_edit_bounds(list, k, id);
            let e = crate::state_manager::last_edit(list, k, id);
            assert(e >= 0);
            let u = list[e];
            let w = after.wallets()[id];
            assert(crate::state_manager::updated_by(w0[id], w, u, now));
            assert(w.authorized_operators.operator_set() =~= u.authorized_operators.operator_set());
            lemma_same_chain_approvers(w.approval_chain_basic.0@, u.approval_chain_basic.0@);
        }
    }
}

/// The role a user acts in: a transaction operator acts as one whatever
/// else they are; otherwise an approver acts as an approver (even an
/// administrator too); otherwise an administrator as one; otherwise a
/// viewer; a user with none of these roles is refused.
pub proof fn law_user_role_priority(info: UserInfo, r: Result<User, GatewayError>)
    requires
        match primary_role(info) {
            Some(role) => r matches Ok(u) && u.role() == role && u.info_spec() == info,
            None => r == Err::<User, GatewayError>(GatewayError::UnknownRole),
        },
    ensures
        info.roles.has(Role::TxOperator) ==> (r matches Ok(u) && u.role() == Role::TxOperator),
        !info.roles.has(Role::TxOperator) && info.roles.has(Role::Approver) ==> (r matches Ok(u) && u.role()
            == Role::Approver),
        !info.roles.has(Role::TxOperator) && !info.roles.has(Role::Approver) && info.roles.has(Role::Admin) ==> (r matches Ok(
            u,
        ) && u.role() == Role::Admin),
        !info.roles.has(Role::TxOperator) && !info.roles.has(Role::Approver) && !info.roles.has(Role::Admin)
            && info.roles.has(Role::Viewer) ==> (r matches Ok(u) && u.role() == Role::Viewer),
        !info.roles.has(Role::TxOperator) && !info.roles.has(Role::Approver) && !info.roles.has(Role::Admin)
            && !info.roles.has(Role::Viewer) ==> r == Err::<User, GatewayError>(GatewayError::UnknownRole),
        r matches Ok(u) ==> info.roles.has(u.role()),
{
}

/// While walking a backup plan, the receiving device never goes over the
/// wallet limit through it: as long as nothing failed, either its list of
/// backed-up wallets is still the one it started with, or its created and
/// backed-up wallets together are at most the limit.
proof fn lemma_backup_plan_within_limit(
    wallets: Map<Seq<char>, crate::wallet::ConsoleWalletInfo>,
    from_id: Seq<char>,
    from_created: Seq<Seq<char>>,
    to_created_len: nat,
    to_backed: Seq<Seq<char>>,
    list: Seq<Seq<char>>,
)
    ensures
        ({
            let plan = backup_plan(wallets, from_id, from_created, to_created_len, to_backed, list);
            plan.2 is None ==> (plan.1 == to_backed || to_created_len + plan.1.len() <= MAX_WALLET_NUM_PER_DEVICE)
        }),
    decreases list.len(),
{
    if list.len() > 0 {
        lemma_backup_plan_within_limit(wallets, from_id, from_created, to_created_len, to_backed, list.drop_last());
    }
}

/// A device that takes backups never ends over the wallet limit (its
/// created and backed-up wallets together): after a successful backup the
/// receiving device holds at most `MAX_WALLET_NUM_PER_DEVICE` wallets,
/// unless it held more before and gained none.
pub proof fn law_backup_respects_wallet_limit(
    before: DeviceRegistry,
    after: DeviceRegistry,
    from_id: Seq<char>,
    info: BackupDeviceInfoBasic,
    now: u64,
    r: Result<BackupListToSign, GatewayError>,
)
    requires
        backup_result(before, after, from_id, info, now, r),
    ensures
        r is Ok ==> after.device_map().contains_key(info.device_id@) && before.device_map().contains_key(
            info.device_id@,
        ) && (after.device_map()[info.device_id@].count() <= MAX_WALLET_NUM_PER_DEVICE || after.device_map()[info.device_id@]
            .count() == before.device_map()[info.device_id@].count()),
{
    if r is Ok {
        let to_id = info.device_id@;
        let from = before.device_map()[from_id];
        let to = before.device_map()[to_id];
        let list = if info.wallet_id_list@.len() == 0 {
            from.created()
        } else {
            crate::strs::views(info.wallet_id_list@)
        };
        lemma_backup_plan_within_limit(before.wallet_map(), from_id, from.created(), to.created().len(), to.backed_up(), list);
        assert(after.device_map()[to_id] == after.device_map()[to_id]);
    }
}

} // verus!
