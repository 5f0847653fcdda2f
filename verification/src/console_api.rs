//! The endpoints of the authority's console (users, devices, wallets),
//! once the caller's email is authenticated: who may call them, what they
//! check, and what they answer.
use vstd::prelude::*;
use crate::console::{is_admin_email, Admin, ConsoleUserInfo};
use crate::error::GatewayError;
use crate::device_info::{BackupDeviceInfoBasic, DeviceInfoBasic};
use crate::device_registry::{backup_result, wallet_config_result, BackupListToSign, WalletConfigToSign};
use crate::tee::TeeStatusForClient;
use crate::model::{AccountId, CkPublicKey, DeviceID, Email, Role, UserID, WalletID};
use crate::user_info::UserInfo;
use crate::nickname::{byte_len, MAX_NAME_LEN};
use crate::state_manager::{
    backup_time_of, config_version_of, creates_of, ids_of, register_result, revert_result, update_result, clock_refused, keeps_tee_state,
    SharedStateManager,
};
use crate::strs::views;
use crate::wallet::{ConsoleWalletInfo, ConsoleWalletInfoForClient, CreateConsoleWalletInfo, UpdateConsoleWalletInfo};

verus! {

/// The account shown with a wallet: the first account the TEE synced
/// back for it, if any.
pub open spec fn shown_account(st: SharedStateManager, wallet_id: Seq<char>) -> Option<AccountId> {
    if st.synced().contains_key(wallet_id) && st.synced()[wallet_id].accounts@.len() > 0 {
        Some(st.synced()[wallet_id].accounts@[0].id_spec())
    } else {
        None
    }
}

/// `out` shows `ws` in order, each with its account in `st`.
pub open spec fn shown(st: SharedStateManager, ws: Seq<ConsoleWalletInfo>, out: Seq<ConsoleWalletInfoForClient>) -> bool {
    &&& out.len() == ws.len()
    &&& forall|i: int| 0 <= i < ws.len() ==> {
        &&& (#[trigger] out[i]).wallet_id == ws[i].wallet_id
        &&& out[i].wallet_name == ws[i].wallet_name
        &&& out[i].account_address == shown_account(st, ws[i].wallet_id@)
        &&& out[i].created_by_device == ws[i].created_by_device
        &&& out[i].backed_up_by_devices == ws[i].backed_up_by_devices
        &&& out[i].approval_chain_basic == ws[i].approval_chain_basic
        &&& out[i].authorized_operators == ws[i].authorized_operators
        &&& out[i].viewers == ws[i].viewers
        &&& out[i].update_time == ws[i].update_time
    }
}

/// The caller as an administrator; every wallet endpoint requires one.
pub fn authorize_admin(email: &Email) -> (r: Result<Admin, GatewayError>)
    ensures
        r is Ok <==> is_admin_email(email@),
        r matches Err(e) ==> e == GatewayError::NotAdmin,
{
    Admin::try_from_info(ConsoleUserInfo::new(crate::model::clone_str(email)))
}

/// The wallets shown with their accounts.
pub fn with_accounts(st: &SharedStateManager, ws: Vec<ConsoleWalletInfo>) -> (r: Vec<ConsoleWalletInfoForClient>)
    ensures
        shown(*st, ws@, r@),
{
    let ghost orig = ws@;
    let mut out: Vec<ConsoleWalletInfoForClient> = Vec::new();
    let mut rest = ws;
    let mut i: usize = 0;
    let n = rest.len();
    proof {
        assert(rest@ =~= orig.skip(0));
    }
    while i < n
        invariant
            i <= n,
            n == orig.len(),
            rest@ == orig.skip(i as int),
            out@.len() == i,
            forall|j: int| 0 <= j < i ==> {
                &&& (#[trigger] out@[j]).wallet_id == orig[j].wallet_id
                &&& out@[j].wallet_name == orig[j].wallet_name
                &&& out@[j].account_address == shown_account(*st, orig[j].wallet_id@)
                &&& out@[j].created_by_device == orig[j].created_by_device
                &&& out@[j].backed_up_by_devices == orig[j].backed_up_by_devices
                &&& out@[j].approval_chain_basic == orig[j].approval_chain_basic
                &&& out@[j].authorized_operators == orig[j].authorized_operators
                &&& out@[j].viewers == orig[j].viewers
                &&& out@[j].update_time == orig[j].update_time
            },
        decreases n - i,
    {
        let w = rest.remove(0);
        proof {
            assert(w == orig[i as int]);
            assert(rest@ =~= orig.skip(i as int + 1));
        }
        let account = st.get_wallet_address(&w.wallet_id);
        out.push(ConsoleWalletInfoForClient::new(w, account));
        i = i + 1;
    }
    out
}

/// Whether every name has at most 20 bytes.
pub open spec fn names_fit(names: Seq<Seq<char>>) -> bool {
    forall|i: int| 0 <= i < names.len() ==> byte_len(#[trigger] names[i]) <= MAX_NAME_LEN
}

fn check_names(names: &Vec<&String>) -> (r: bool)
    ensures
        r == names_fit(names@.map_values(|s: &String| s@)),
{
    let ghost ns = names@.map_values(|s: &String| s@);
    let mut i: usize = 0;
    while i < names.len()
        invariant
            i <= names@.len(),
            ns == names@.map_values(|s: &String| s@),
            forall|j: int| 0 <= j < i ==> byte_len(#[trigger] ns[j]) <= MAX_NAME_LEN,
        decreases names@.len() - i,
    {
        if names[i].as_str().as_bytes().len() > MAX_NAME_LEN {
            proof {
                assert(ns[i as int] == names@[i as int]@);
            }
            return false;
        }
        i = i + 1;
    }
    true
}

/// The names of wallets to create.
pub open spec fn create_names(list: Seq<CreateConsoleWalletInfo>) -> Seq<Seq<char>> {
    list.map_values(|c: CreateConsoleWalletInfo| c.wallet_name@)
}

/// The names of wallet edits.
pub open spec fn update_names(list: Seq<UpdateConsoleWalletInfo>) -> Seq<Seq<char>> {
    list.map_values(|u: UpdateConsoleWalletInfo| u.wallet_name@)
}

fn create_names_fit(list: &Vec<CreateConsoleWalletInfo>) -> (r: bool)
    ensures
        r == names_fit(create_names(list@)),
{
    let mut names: Vec<&String> = Vec::new();
    let mut i: usize = 0;
    while i < list.len()
        invariant
            i <= list@.len(),
            names@.map_values(|s: &String| s@) == create_names(list@).take(i as int),
        decreases list@.len() - i,
    {
        let ghost before = names@;
        names.push(&list[i].wallet_name);
        proof {
            assert(names@.map_values(|s: &String| s@) =~= before.map_values(|s: &String| s@).push(list@[i as int].wallet_name@));
            assert(create_names(list@).take(i as int + 1) =~= create_names(list@).take(i as int).push(list@[i as int].wallet_name@));
        }
        i = i + 1;
    }
    proof {
        assert(create_names(list@).take(i as int) =~= create_names(list@));
    }
    check_names(&names)
}

fn update_names_fit(list: &Vec<UpdateConsoleWalletInfo>) -> (r: bool)
    ensures
        r == names_fit(update_names(list@)),
{
    let mut names: Vec<&String> = Vec::new();
    let mut i: usize = 0;
    while i < list.len()
        invariant
            i <= list@.len(),
            names@.map_values(|s: &String| s@) == update_names(list@).take(i as int),
        decreases list@.len() - i,
    {
        let ghost before = names@;
        names.push(&list[i].wallet_name);
        proof {
            assert(names@.map_values(|s: &String| s@) =~= before.map_values(|s: &String| s@).push(list@[i as int].wallet_name@));
            assert(update_names(list@).take(i as int + 1) =~= update_names(list@).take(i as int).push(list@[i as int].wallet_name@));
        }
        i = i + 1;
    }
    proof {
        assert(update_names(list@).take(i as int) =~= update_names(list@));
    }
    check_names(&names)
}

/// `/wallet/register`: an administrator registers wallets on a device
/// (see `SharedStateManager::register_wallets`), every name at most 20
/// bytes; the answer shows them with their accounts.
pub fn wallet_register(
    st: &mut SharedStateManager,
    caller: &Email,
    device_id: &DeviceID,
    wallet_info_list: &Vec<CreateConsoleWalletInfo>,
    wallet_ids: &Vec<WalletID>,
) -> (r: Result<Vec<ConsoleWalletInfoForClient>, GatewayError>)
    requires
        wallet_ids@.len() == wallet_info_list@.len(),
    ensures
        !is_admin_email(caller@) ==> r == Err::<Vec<ConsoleWalletInfoForClient>, GatewayError>(GatewayError::NotAdmin)
            && *final(st) == *old(st),
        is_admin_email(caller@) && !names_fit(create_names(wallet_info_list@)) ==> r == Err::<
            Vec<ConsoleWalletInfoForClient>,
            GatewayError,
        >(GatewayError::NameTooLong) && *final(st) == *old(st),
        is_admin_email(caller@) && names_fit(create_names(wallet_info_list@)) && clock_refused(r) ==> *final(st)
            == *old(st),
        is_admin_email(caller@) && names_fit(create_names(wallet_info_list@)) && !clock_refused(r) ==> exists|
            now: u64,
            inner: Result<Vec<ConsoleWalletInfo>, GatewayError>,
        |
            #![trigger register_result(*old(st), *final(st), device_id@, wallet_info_list@, views(wallet_ids@), now, inner)]
            {
                &&& register_result(*old(st), *final(st), device_id@, wallet_info_list@, views(wallet_ids@), now, inner)
                &&& inner is Ok <==> r is Ok
                &&& inner matches Err(e) ==> r == Err::<Vec<ConsoleWalletInfoForClient>, GatewayError>(e)
                &&& inner matches Ok(ws) ==> (r matches Ok(out) && shown(*final(st), ws@, out@))
            },
        final(st).user_reg() == old(st).user_reg(),
        final(st).device_reg().index_map() == old(st).device_reg().index_map(),
        keeps_tee_state(*old(st), *final(st)),
{
    match authorize_admin(caller) {
        Ok(_) => {},
        Err(e) => {
            return Err(e);
        },
    }
    if !create_names_fit(wallet_info_list) {
        return Err(GatewayError::NameTooLong);
    }
    let inner = st.register_wallets(device_id, wallet_info_list, wallet_ids);
    let ghost inner_g = inner;
    let ghost now = choose|now: u64|
        register_result(*old(st), *st, device_id@, wallet_info_list@, views(wallet_ids@), now, inner_g);
    let r = match inner {
        Ok(ws) => Ok(with_accounts(st, ws)),
        Err(e) => Err(e),
    };
    proof {
        if !clock_refused(inner_g) {
            assert(register_result(*old(st), *st, device_id@, wallet_info_list@, views(wallet_ids@), now, inner_g));
        }
    }
    r
}

/// `/wallet/info/update`: an administrator edits wallets of a device (see
/// `SharedStateManager::update_wallet_info`), every name at most 20
/// bytes; the answer shows them with their accounts.
pub fn wallet_info_update(
    st: &mut SharedStateManager,
    caller: &Email,
    device_id: &DeviceID,
    wallet_info_list: &Vec<UpdateConsoleWalletInfo>,
) -> (r: Result<Vec<ConsoleWalletInfoForClient>, GatewayError>)
    ensures
        !is_admin_email(caller@) ==> r == Err::<Vec<ConsoleWalletInfoForClient>, GatewayError>(GatewayError::NotAdmin)
            && *final(st) == *old(st),
        is_admin_email(caller@) && !names_fit(update_names(wallet_info_list@)) ==> r == Err::<
            Vec<ConsoleWalletInfoForClient>,
            GatewayError,
        >(GatewayError::NameTooLong) && *final(st) == *old(st),
        is_admin_email(caller@) && names_fit(update_names(wallet_info_list@)) && clock_refused(r) ==> *final(st)
            == *old(st),
        is_admin_email(caller@) && names_fit(update_names(wallet_info_list@)) && !clock_refused(r) ==> exists|
            now: u64,
            inner: Result<Vec<ConsoleWalletInfo>, GatewayError>,
        |
            #![trigger update_result(*old(st), *final(st), device_id@, wallet_info_list@, now, inner)]
            {
                &&& update_result(*old(st), *final(st), device_id@, wallet_info_list@, now, inner)
                &&& inner is Ok <==> r is Ok
                &&& inner matches Err(e) ==> r == Err::<Vec<ConsoleWalletInfoForClient>, GatewayError>(e)
                &&& inner matches Ok(ws) ==> (r matches Ok(out) && shown(*final(st), ws@, out@))
            },
        final(st).user_reg() == old(st).user_reg(),
        final(st).device_reg().index_map() == old(st).device_reg().index_map(),
        keeps_tee_state(*old(st), *final(st)),
{
    match authorize_admin(caller) {
        Ok(_) => {},
        Err(e) => {
            return Err(e);
        },
    }
    if !update_names_fit(wallet_info_list) {
        return Err(GatewayError::NameTooLong);
    }
    let inner = st.update_wallet_info(device_id, wallet_info_list);
    let ghost inner_g = inner;
    let ghost now = choose|now: u64| update_result(*old(st), *st, device_id@, wallet_info_list@, now, inner_g);
    let r = match inner {
        Ok(ws) => Ok(with_accounts(st, ws)),
        Err(e) => Err(e),
    };
    proof {
        if !clock_refused(inner_g) {
            assert(update_result(*old(st), *st, device_id@, wallet_info_list@, now, inner_g));
        }
    }
    r
}

/// `/wallet/create/with-id`: an administrator registers wallets with given
/// ids on a device (see `SharedStateManager::wallet_create_with_id`),
/// every name at most 20 bytes; the answer shows them with their accounts.
pub fn wallet_create_with_id(
    st: &mut SharedStateManager,
    caller: &Email,
    device_id: &DeviceID,
    wallet_info_list: Vec<UpdateConsoleWalletInfo>,
) -> (r: Result<Vec<ConsoleWalletInfoForClient>, GatewayError>)
    ensures
        !is_admin_email(caller@) ==> r == Err::<Vec<ConsoleWalletInfoForClient>, GatewayError>(GatewayError::NotAdmin)
            && *final(st) == *old(st),
        is_admin_email(caller@) && !names_fit(update_names(wallet_info_list@)) ==> r == Err::<
            Vec<ConsoleWalletInfoForClient>,
            GatewayError,
        >(GatewayError::NameTooLong) && *final(st) == *old(st),
        is_admin_email(caller@) && names_fit(update_names(wallet_info_list@)) && clock_refused(r) ==> *final(st)
            == *old(st),
        is_admin_email(caller@) && names_fit(update_names(wallet_info_list@)) && !clock_refused(r) ==> exists|
            now: u64,
            inner: Result<Vec<ConsoleWalletInfo>, GatewayError>,
        |
            #![trigger register_result(*old(st), *final(st), device_id@, creates_of(wallet_info_list@), ids_of(wallet_info_list@), now, inner)]
            {
                &&& register_result(
                    *old(st),
                    *final(st),
                    device_id@,
                    creates_of(wallet_info_list@),
                    ids_of(wallet_info_list@),
                    now,
                    inner,
                )
                &&& inner is Ok <==> r is Ok
                &&& inner matches Err(e) ==> r == Err::<Vec<ConsoleWalletInfoForClient>, GatewayError>(e)
                &&& inner matches Ok(ws) ==> (r matches Ok(out) && shown(*final(st), ws@, out@))
            },
        final(st).user_reg() == old(st).user_reg(),
        final(st).device_reg().index_map() == old(st).device_reg().index_map(),
        keeps_tee_state(*old(st), *final(st)),
{
    match authorize_admin(caller) {
        Ok(_) => {},
        Err(e) => {
            return Err(e);
        },
    }
    if !update_names_fit(&wallet_info_list) {
        return Err(GatewayError::NameTooLong);
    }
    let ghost list = wallet_info_list@;
    let inner = st.wallet_create_with_id(device_id, wallet_info_list);
    let ghost inner_g = inner;
    let ghost now = choose|now: u64|
        register_result(*old(st), *st, device_id@, creates_of(list), ids_of(list), now, inner_g);
    let r = match inner {
        Ok(ws) => Ok(with_accounts(st, ws)),
        Err(e) => Err(e),
    };
    proof {
        if !clock_refused(inner_g) {
            assert(register_result(*old(st), *st, device_id@, creates_of(list), ids_of(list), now, inner_g));
        }
    }
    r
}

/// `/wallet/info/get`: an administrator reads a wallet, shown with its
/// account.
pub fn wallet_info_get(st: &SharedStateManager, caller: &Email, wallet_id: &WalletID) -> (r: Result<
    ConsoleWalletInfoForClient,
    GatewayError,
>)
    ensures
        !is_admin_email(caller@) ==> r == Err::<ConsoleWalletInfoForClient, GatewayError>(GatewayError::NotAdmin),
        is_admin_email(caller@) ==> {
            &&& r is Ok <==> st.wallets().contains_key(wallet_id@)
            &&& r matches Err(e) ==> e == GatewayError::WalletNotFound
            &&& r matches Ok(w) ==> w.wallet_id@ == wallet_id@ && w.account_address == shown_account(*st, wallet_id@)
                && w.update_time == st.wallets()[wallet_id@].update_time
        },
{
    match authorize_admin(caller) {
        Ok(_) => {},
        Err(e) => {
            return Err(e);
        },
    }
    match st.get_wallet_info(wallet_id) {
        Ok(w) => {
            proof {
                assert(w.wallet_id@ == wallet_id@);
            }
            let account = st.get_wallet_address(&w.wallet_id);
            Ok(ConsoleWalletInfoForClient::new(w, account))
        },
        Err(e) => Err(e),
    }
}

/// `/wallet/info/get-by-device`: an administrator reads the wallets of a
/// device, each shown with its account.
pub fn wallet_info_get_all(st: &SharedStateManager, caller: &Email, device_id: &DeviceID) -> (r: Result<
    Vec<ConsoleWalletInfoForClient>,
    GatewayError,
>)
    ensures
        !is_admin_email(caller@) ==> r == Err::<Vec<ConsoleWalletInfoForClient>, GatewayError>(GatewayError::NotAdmin),
        is_admin_email(caller@) && !st.device_reg().device_map().contains_key(device_id@) ==> r == Err::<
            Vec<ConsoleWalletInfoForClient>,
            GatewayError,
        >(GatewayError::DeviceNotFound),
        is_admin_email(caller@) && st.device_reg().device_map().contains_key(device_id@) ==> {
            let dev = st.device_reg().device_map()[device_id@];
            let ids = dev.created() + dev.backed_up();
            &&& r is Ok <==> (forall|i: int| 0 <= i < ids.len() ==> st.wallets().contains_key(#[trigger] ids[i]))
            &&& r matches Ok(out) ==> out@.len() == ids.len() && forall|i: int| 0 <= i < ids.len() ==> (#[trigger] out@[i]).wallet_id@ == ids[i]
                && out@[i].account_address == shown_account(*st, ids[i])
        },
{
    match authorize_admin(caller) {
        Ok(_) => {},
        Err(e) => {
            return Err(e);
        },
    }
    match st.get_all_wallet_info(device_id) {
        Ok(ws) => {
            let ghost wsv = ws@;
            let out = with_accounts(st, ws);
            proof {
                let dev = st.device_reg().device_map()[device_id@];
                let ids = dev.created() + dev.backed_up();
                assert forall|i: int| 0 <= i < ids.len() implies (#[trigger] out@[i]).wallet_id@ == ids[i]
                    && out@[i].account_address == shown_account(*st, ids[i]) by {
                    assert(wsv[i].wallet_id@ == ids[i]);
                }
            }
            Ok(out)
        },
        Err(e) => Err(e),
    }
}

/// `/app-user/register`: an administrator registers a user (see
/// `SharedStateManager::register_user`).
pub fn user_register(
    st: &mut SharedStateManager,
    caller: &Email,
    name: &str,
    email: &Email,
    roles: &Vec<Role>,
    public_key: CkPublicKey,
    user_id: UserID,
) -> (r: Result<UserInfo, GatewayError>)
    ensures
        !is_admin_email(caller@) ==> r == Err::<UserInfo, GatewayError>(GatewayError::NotAdmin) && *final(st) == *old(st),
        is_admin_email(caller@) ==> {
            &&& r is Err <==> old(st).users().contains_key(email@)
            &&& r matches Err(e) ==> e == GatewayError::UserAlreadyExists && final(st).users() == old(st).users()
            &&& r matches Ok(info) ==> {
                let stored = final(st).users()[email@];
                &&& final(st).users() == old(st).users().insert(email@, stored)
                &&& info.same_as(&stored)
                &&& stored.name@ == name@
                &&& stored.email@ == email@
                &&& (forall|x: Role| stored.roles.has(x) <==> roles@.contains(x))
                &&& stored.pub_key == public_key
                &&& stored.user_id == user_id
                &&& final(st).user_reg().uids().contains_key(user_id@)
                &&& final(st).user_reg().uids()[user_id@].email@ == email@
            }
            &&& final(st).device_reg() == old(st).device_reg()
        },
        keeps_tee_state(*old(st), *final(st)),
{
    match authorize_admin(caller) {
        Ok(_) => {},
        Err(e) => {
            return Err(e);
        },
    }
    st.register_user(name, email, roles, public_key, user_id)
}

/// `/app-user/role/append`: an administrator adds roles to a user (see
/// `SharedStateManager::append_role`).
pub fn user_role_append(st: &mut SharedStateManager, caller: &Email, email: &Email, roles: &Vec<Role>) -> (r: Result<
    UserInfo,
    GatewayError,
>)
    ensures
        !is_admin_email(caller@) ==> r == Err::<UserInfo, GatewayError>(GatewayError::NotAdmin) && *final(st) == *old(st),
        is_admin_email(caller@) ==> {
            &&& r is Ok <==> old(st).users().contains_key(email@)
            &&& r matches Err(e) ==> e == GatewayError::UserNotFound && final(st).users() == old(st).users()
            &&& r matches Ok(info) ==> {
                let stored = final(st).users()[email@];
                &&& final(st).users() == old(st).users().insert(email@, stored)
                &&& info.same_as(&stored)
                &&& (forall|x: Role| stored.roles.has(x) <==> (old(st).users()[email@].roles.has(x) || roles@.contains(x)))
            }
            &&& final(st).device_reg() == old(st).device_reg()
        },
        keeps_tee_state(*old(st), *final(st)),
{
    match authorize_admin(caller) {
        Ok(_) => {},
        Err(e) => {
            return Err(e);
        },
    }
    st.append_role(email, roles)
}

/// `/app-user/info/get`: an administrator reads a user.
pub fn user_info_get(st: &SharedStateManager, caller: &Email, email: &Email) -> (r: Result<UserInfo, GatewayError>)
    ensures
        !is_admin_email(caller@) ==> r == Err::<UserInfo, GatewayError>(GatewayError::NotAdmin),
        is_admin_email(caller@) ==> {
            &&& r is Ok <==> st.users().contains_key(email@)
            &&& r matches Ok(info) ==> info.same_as(&st.users()[email@])
            &&& r matches Err(e) ==> e == GatewayError::UserNotFound
        },
{
    match authorize_admin(caller) {
        Ok(_) => {},
        Err(e) => {
            return Err(e);
        },
    }
    st.get_user_info(email)
}

/// `/app-user/info/get-all`: an administrator reads every user, in the
/// order they registered.
pub fn user_info_get_all(st: &SharedStateManager, caller: &Email) -> (r: Result<Vec<UserInfo>, GatewayError>)
    ensures
        !is_admin_email(caller@) ==> r == Err::<Vec<UserInfo>, GatewayError>(GatewayError::NotAdmin),
        is_admin_email(caller@) ==> (r matches Ok(all) && all@.len() == st.user_reg().user_seq().len() && forall|i: int|
            0 <= i < all@.len() ==> (#[trigger] all@[i]).same_as(&st.user_reg().user_seq()[i])),
{
    match authorize_admin(caller) {
        Ok(_) => {},
        Err(e) => {
            return Err(e);
        },
    }
    Ok(st.get_all_user_info())
}

/// `/app-user/info/get-by-id`: an administrator reads the user with a
/// given id.
pub fn user_info_get_by_id(st: &SharedStateManager, caller: &Email, user_id: &UserID) -> (r: Result<UserInfo, GatewayError>)
    ensures
        !is_admin_email(caller@) ==> r == Err::<UserInfo, GatewayError>(GatewayError::NotAdmin),
        is_admin_email(caller@) ==> {
            &&& r is Ok <==> exists|i: int|
                0 <= i < st.user_reg().user_seq().len() && #[trigger] st.user_reg().user_seq()[i].user_id@ == user_id@
            &&& r matches Ok(info) ==> exists|i: int|
                0 <= i < st.user_reg().user_seq().len() && st.user_reg().user_seq()[i].user_id@ == user_id@
                    && info.same_as(&st.user_reg().user_seq()[i])
            &&& r matches Err(e) ==> e == GatewayError::UserNotFound
        },
{
    match authorize_admin(caller) {
        Ok(_) => {},
        Err(e) => {
            return Err(e);
        },
    }
    st.get_user_info_by_id(user_id)
}

/// `/device/register`: an administrator registers a device of their own
/// (see `SharedStateManager::register_device`); nobody registers a device
/// for another user.
pub fn device_register(
    st: &mut SharedStateManager,
    caller: &Email,
    signing_pubkey: CkPublicKey,
    backup_pubkey: CkPublicKey,
    device_id: DeviceID,
    device_tee_cert: Vec<u8>,
) -> (r: Result<DeviceInfoBasic, GatewayError>)
    ensures
        !is_admin_email(caller@) ==> r == Err::<DeviceInfoBasic, GatewayError>(GatewayError::NotAdmin) && *final(st) == *old(st),
        is_admin_email(caller@) && clock_refused(r) ==> *final(st) == *old(st),
        is_admin_email(caller@) && !clock_refused(r) ==> {
            &&& r is Err <==> old(st).device_reg().device_registered(device_id@)
            &&& r matches Err(e) ==> e == GatewayError::DeviceAlreadyRegistered && final(st).device_reg() == old(st).device_reg()
            &&& r matches Ok(basic) ==> {
                let dev = final(st).device_reg().device_map()[device_id@];
                &&& final(st).device_reg().device_map() == old(st).device_reg().device_map().insert(device_id@, dev)
                &&& dev.owner_spec() == caller@
                &&& dev.id_spec() == device_id@
                &&& dev.signing_pubkey_spec() == signing_pubkey.0@
                &&& dev.backup_pubkey_spec() == backup_pubkey.0@
                &&& dev.cert_spec() == device_tee_cert@
                &&& dev.created().len() == 0
                &&& dev.backed_up().len() == 0
                &&& final(st).device_reg().index_map()[caller@].devices().contains(device_id@)
                &&& basic.owner@ == caller@
                &&& basic.id@ == device_id@
            }
        },
        final(st).user_reg() == old(st).user_reg(),
        final(st).wallets() == old(st).wallets(),
        keeps_tee_state(*old(st), *final(st)),
{
    match authorize_admin(caller) {
        Ok(_) => {},
        Err(e) => {
            return Err(e);
        },
    }
    st.register_device(caller, signing_pubkey, backup_pubkey, device_id, device_tee_cert)
}

/// `/device/cert/export`: an administrator exports a device's certificate.
pub fn device_cert_export(st: &SharedStateManager, caller: &Email, device_id: &DeviceID) -> (r: Result<Vec<u8>, GatewayError>)
    ensures
        !is_admin_email(caller@) ==> r == Err::<Vec<u8>, GatewayError>(GatewayError::NotAdmin),
        is_admin_email(caller@) ==> {
            &&& r is Ok <==> st.device_reg().device_map().contains_key(device_id@)
            &&& r matches Ok(cert) ==> cert@ == st.device_reg().device_map()[device_id@].cert_spec()
            &&& r matches Err(e) ==> e == GatewayError::DeviceNotFound
        },
{
    match authorize_admin(caller) {
        Ok(_) => {},
        Err(e) => {
            return Err(e);
        },
    }
    st.export_device_cert(device_id)
}

/// `/device/cert/refresh`: an administrator gives a device its newly issued
/// certificate, which is exported.
pub fn device_cert_refresh(st: &mut SharedStateManager, caller: &Email, device_id: &DeviceID, device_tee_cert: Vec<u8>) -> (r: Result<
    Vec<u8>,
    GatewayError,
>)
    ensures
        !is_admin_email(caller@) ==> r == Err::<Vec<u8>, GatewayError>(GatewayError::NotAdmin) && *final(st) == *old(st),
        is_admin_email(caller@) ==> {
            &&& r is Ok <==> old(st).device_reg().device_map().contains_key(device_id@)
            &&& r matches Err(e) ==> e == GatewayError::DeviceNotFound && final(st).device_reg() == old(st).device_reg()
            &&& r matches Ok(cert) ==> {
                let dev = final(st).device_reg().device_map()[device_id@];
                &&& cert@ == device_tee_cert@
                &&& final(st).device_reg().device_map() == old(st).device_reg().device_map().insert(device_id@, dev)
                &&& dev.cert_spec() == device_tee_cert@
                &&& dev.same_except_cert(&old(st).device_reg().device_map()[device_id@])
            }
        },
        final(st).user_reg() == old(st).user_reg(),
        final(st).wallets() == old(st).wallets(),
        final(st).device_reg().index_map() == old(st).device_reg().index_map(),
        keeps_tee_state(*old(st), *final(st)),
{
    match authorize_admin(caller) {
        Ok(_) => {},
        Err(e) => {
            return Err(e);
        },
    }
    st.refresh_device_cert(device_id, device_tee_cert)
}

/// `/device/authorize`: an administrator lets a device take backups of the
/// wallets of another (see `SharedStateManager::authorize_backup_device`).
pub fn device_authorize(
    st: &mut SharedStateManager,
    caller: &Email,
    from_device_id: &DeviceID,
    backup_info: &BackupDeviceInfoBasic,
) -> (r: Result<BackupListToSign, GatewayError>)
    ensures
        !is_admin_email(caller@) ==> r == Err::<BackupListToSign, GatewayError>(GatewayError::NotAdmin) && *final(st) == *old(st),
        is_admin_email(caller@) && clock_refused(r) ==> *final(st) == *old(st),
        is_admin_email(caller@) && !clock_refused(r) ==> backup_result(
            old(st).device_reg(),
            final(st).device_reg(),
            from_device_id@,
            *backup_info,
            backup_time_of(r),
            r,
        ),
        final(st).user_reg() == old(st).user_reg(),
        final(st).device_reg().index_map() == old(st).device_reg().index_map(),
        keeps_tee_state(*old(st), *final(st)),
{
    match authorize_admin(caller) {
        Ok(_) => {},
        Err(e) => {
            return Err(e);
        },
    }
    st.authorize_backup_device(from_device_id, backup_info)
}

/// `/device/info/get`: an administrator reads a device.
pub fn device_info_get(st: &SharedStateManager, caller: &Email, device_id: &DeviceID) -> (r: Result<DeviceInfoBasic, GatewayError>)
    ensures
        !is_admin_email(caller@) ==> r == Err::<DeviceInfoBasic, GatewayError>(GatewayError::NotAdmin),
        is_admin_email(caller@) ==> {
            &&& r is Ok <==> st.device_reg().device_map().contains_key(device_id@)
            &&& r matches Ok(b) ==> {
                let dev = st.device_reg().device_map()[device_id@];
                &&& b.owner@ == dev.owner_spec()
                &&& b.id@ == dev.id_spec()
                &&& b.register_time == dev.register_time_spec()
                &&& views(b.created_wallets@) == dev.created()
                &&& views(b.backed_up_wallets@) == dev.backed_up()
            }
            &&& r matches Err(e) ==> e == GatewayError::DeviceNotFound
        },
{
    match authorize_admin(caller) {
        Ok(_) => {},
        Err(e) => {
            return Err(e);
        },
    }
    st.get_device_info(device_id)
}

/// `/device/status`: an administrator reads the status of a device's TEE;
/// a device that is not the online one is offline.
pub fn device_status(st: &SharedStateManager, caller: &Email, device_id: &DeviceID) -> (r: Result<TeeStatusForClient, GatewayError>)
    ensures
        !is_admin_email(caller@) ==> r == Err::<TeeStatusForClient, GatewayError>(GatewayError::NotAdmin),
        is_admin_email(caller@) ==> r == Ok::<TeeStatusForClient, GatewayError>(match st.online() {
            Some(d) => if d.device_id@ == device_id@ {
                TeeStatusForClient::from_status_spec(d.status)
            } else {
                TeeStatusForClient::Offline
            },
            None => TeeStatusForClient::Offline,
        }),
{
    match authorize_admin(caller) {
        Ok(_) => {},
        Err(e) => {
            return Err(e);
        },
    }
    Ok(TeeStatusForClient::for_device(st.get_tee_status(device_id)))
}

/// `/device/get-all`: an administrator lists the devices, which is the
/// online one.
pub fn device_get_all(st: &SharedStateManager, caller: &Email) -> (r: Result<Vec<DeviceID>, GatewayError>)
    ensures
        !is_admin_email(caller@) ==> r == Err::<Vec<DeviceID>, GatewayError>(GatewayError::NotAdmin),
        is_admin_email(caller@) ==> match st.online() {
            Some(d) => (r matches Ok(list) && list@.len() == 1 && list@[0]@ == d.device_id@),
            None => r == Err::<Vec<DeviceID>, GatewayError>(GatewayError::NoOnlineDevice),
        },
{
    match authorize_admin(caller) {
        Ok(_) => {},
        Err(e) => {
            return Err(e);
        },
    }
    match st.get_current_online_device() {
        Ok(id) => Ok(vec![id]),
        Err(e) => Err(e),
    }
}

/// `/device/sync`: an administrator has the configuration of a device
/// prepared for signing, versioned by the current time.
pub fn device_sync(st: &SharedStateManager, caller: &Email, device_id: &DeviceID) -> (r: Result<WalletConfigToSign, GatewayError>)
    ensures
        !is_admin_email(caller@) ==> r == Err::<WalletConfigToSign, GatewayError>(GatewayError::NotAdmin),
        is_admin_email(caller@) && !clock_refused(r) ==> wallet_config_result(
            st.device_reg(),
            st.users(),
            device_id@,
            config_version_of(r),
            r,
        ),
{
    match authorize_admin(caller) {
        Ok(_) => {},
        Err(e) => {
            return Err(e);
        },
    }
    st.sync_config(device_id)
}

/// `/wallet/info/revert`: an administrator undoes the console edits of a
/// wallet that the TEE never took (see
/// `SharedStateManager::revert_wallet_info`).
pub fn wallet_info_revert(st: &mut SharedStateManager, caller: &Email, wallet_id: &WalletID) -> (r: Result<(), GatewayError>)
    ensures
        !is_admin_email(caller@) ==> r == Err::<(), GatewayError>(GatewayError::NotAdmin) && *final(st) == *old(st),
        is_admin_email(caller@) ==> revert_result(*old(st), *final(st), wallet_id@, r),
        final(st).user_reg() == old(st).user_reg(),
        final(st).device_reg().index_map() == old(st).device_reg().index_map(),
        keeps_tee_state(*old(st), *final(st)),
{
    match authorize_admin(caller) {
        Ok(_) => {},
        Err(e) => {
            return Err(e);
        },
    }
    st.revert_wallet_info(wallet_id)
}

} // verus!
