//! Registered TEE devices and the wallets each one holds.
use vstd::prelude::*;
use crate::error::GatewayError;
use crate::model::{clone_bytes, clone_str, clone_strs, CkPublicKey, DeviceID, Email, WalletID};
use crate::strs::{contains_str, dedup_strs, push_unique, remove_str, union_strs, view_set, views};
use crate::wallet::ConsoleWalletInfo;

verus! {

/// The public part of a device record.
pub struct DeviceInfoBasic {
    pub owner: Email,
    pub id: DeviceID,
    pub register_time: u64,
    pub created_wallets: Vec<WalletID>,
    pub backed_up_wallets: Vec<WalletID>,
}

/// A request to back wallets up into another device; an empty list asks
/// for every wallet the source device created.
pub struct BackupDeviceInfoBasic {
    pub device_id: DeviceID,
    pub wallet_id_list: Vec<WalletID>,
}

/// A registered device: its owner, keys, certificate, and the wallets it
/// created and the wallets it holds backups of (each listed once).
pub struct DeviceInfo {
    owner: Email,
    id: DeviceID,
    signing_pubkey: CkPublicKey,
    backup_pubkey: CkPublicKey,
    cert: Vec<u8>,
    register_time: u64,
    created_wallets: Vec<WalletID>,
    backed_up_wallets: Vec<WalletID>,
}

/// The devices of one user.
pub struct DeviceIndex {
    email: Email,
    device_list: Vec<DeviceID>,
}

impl DeviceInfo {
    #[verifier::type_invariant]
    closed spec fn wf(self) -> bool {
        &&& views(self.created_wallets@).no_duplicates()
        &&& views(self.backed_up_wallets@).no_duplicates()
    }

    pub closed spec fn owner_spec(&self) -> Seq<char> {
        self.owner@
    }

    pub closed spec fn id_spec(&self) -> Seq<char> {
        self.id@
    }

    pub closed spec fn signing_pubkey_spec(&self) -> Seq<u8> {
        self.signing_pubkey.0@
    }

    pub closed spec fn backup_pubkey_spec(&self) -> Seq<u8> {
        self.backup_pubkey.0@
    }

    pub closed spec fn cert_spec(&self) -> Seq<u8> {
        self.cert@
    }

    pub closed spec fn register_time_spec(&self) -> u64 {
        self.register_time
    }

    /// The wallets created on the device, in order of creation.
    pub closed spec fn created(&self) -> Seq<Seq<char>> {
        views(self.created_wallets@)
    }

    /// The wallets backed up into the device, in order of arrival.
    pub closed spec fn backed_up(&self) -> Seq<Seq<char>> {
        views(self.backed_up_wallets@)
    }

    /// How many wallets the device holds, counting each list apart.
    pub open spec fn count(&self) -> nat {
        self.created().len() + self.backed_up().len()
    }

    /// A device registered at `now` (seconds); duplicate wallet ids in the
    /// given lists are kept once.
    pub fn new(
        owner: Email,
        id: DeviceID,
        signing_pubkey: CkPublicKey,
        backup_pubkey: CkPublicKey,
        cert: Vec<u8>,
        created_wallets: Vec<WalletID>,
        backed_up_wallets: Vec<WalletID>,
        now: u64,
    ) -> (r: Self)
        ensures
            r.owner_spec() == owner@,
            r.id_spec() == id@,
            r.signing_pubkey_spec() == signing_pubkey.0@,
            r.backup_pubkey_spec() == backup_pubkey.0@,
            r.cert_spec() == cert@,
            r.register_time_spec() == now,
            r.created().to_set() == view_set(created_wallets@),
            r.backed_up().to_set() == view_set(backed_up_wallets@),
            views(created_wallets@).no_duplicates() ==> r.created() == views(created_wallets@),
            views(backed_up_wallets@).no_duplicates() ==> r.backed_up() == views(
                backed_up_wallets@,
            ),
    {
        let c = dedup_strs(&created_wallets);
        let b = dedup_strs(&backed_up_wallets);
        DeviceInfo {
            owner,
            id,
            signing_pubkey,
            backup_pubkey,
            cert,
            register_time: now,
            created_wallets: c,
            backed_up_wallets: b,
        }
    }

    pub fn owner(&self) -> (r: &Email)
        ensures
            r@ == self.owner_spec(),
    {
        &self.owner
    }

    pub fn id(&self) -> (r: &DeviceID)
        ensures
            r@ == self.id_spec(),
    {
        &self.id
    }

    pub fn signing_pubkey(&self) -> (r: &CkPublicKey)
        ensures
            r.0@ == self.signing_pubkey_spec(),
    {
        &self.signing_pubkey
    }

    pub fn backup_pubkey(&self) -> (r: &CkPublicKey)
        ensures
            r.0@ == self.backup_pubkey_spec(),
    {
        &self.backup_pubkey
    }

    pub fn cert(&self) -> (r: &Vec<u8>)
        ensures
            r@ == self.cert_spec(),
    {
        &self.cert
    }

    /// Replaces the device certificate; nothing else changes.
    pub fn set_cert(&mut self, cert: Vec<u8>)
        ensures
            final(self).cert_spec() == cert@,
            final(self).same_except_cert(old(self)),
    {
        proof {
            use_type_invariant(&*self);
        }
        self.cert = cert;
    }

    pub open spec fn same_except_cert(&self, other: &DeviceInfo) -> bool {
        &&& self.owner_spec() == other.owner_spec()
        &&& self.id_spec() == other.id_spec()
        &&& self.signing_pubkey_spec() == other.signing_pubkey_spec()
        &&& self.backup_pubkey_spec() == other.backup_pubkey_spec()
        &&& self.register_time_spec() == other.register_time_spec()
        &&& self.created() == other.created()
        &&& self.backed_up() == other.backed_up()
    }

    /// Same owner, id, keys, certificate and time as `other`.
    pub open spec fn same_identity(&self, other: &DeviceInfo) -> bool {
        &&& self.owner_spec() == other.owner_spec()
        &&& self.id_spec() == other.id_spec()
        &&& self.signing_pubkey_spec() == other.signing_pubkey_spec()
        &&& self.backup_pubkey_spec() == other.backup_pubkey_spec()
        &&& self.cert_spec() == other.cert_spec()
        &&& self.register_time_spec() == other.register_time_spec()
    }

    /// A copy of this record.
    pub fn duplicate(&self) -> (r: DeviceInfo)
        ensures
            r.same_identity(self),
            r.created() == self.created(),
            r.backed_up() == self.backed_up(),
    {
        proof {
            use_type_invariant(self);
        }
        DeviceInfo {
            owner: clone_str(&self.owner),
            id: clone_str(&self.id),
            signing_pubkey: self.signing_pubkey.duplicate(),
            backup_pubkey: self.backup_pubkey.duplicate(),
            cert: clone_bytes(&self.cert),
            register_time: self.register_time,
            created_wallets: clone_strs(&self.created_wallets),
            backed_up_wallets: clone_strs(&self.backed_up_wallets),
        }
    }

    pub fn register_time(&self) -> (r: u64)
        ensures
            r == self.register_time_spec(),
    {
        self.register_time
    }

    pub fn created_wallets(&self) -> (r: &Vec<WalletID>)
        ensures
            views(r@) == self.created(),
    {
        &self.created_wallets
    }

    pub fn backed_up_wallets(&self) -> (r: &Vec<WalletID>)
        ensures
            views(r@) == self.backed_up(),
    {
        &self.backed_up_wallets
    }

    /// Records `wallet` as created on this device; fails when the device
    /// already lists it, as created or as backed up.
    pub fn add_owned_wallet(&mut self, wallet_info_basic: &ConsoleWalletInfo) -> (r: Result<(), GatewayError>)
        ensures
            old(self).created().contains(wallet_info_basic.wallet_id@) ==> r == Err::<(), GatewayError>(
                GatewayError::WalletAlreadyCreatedOnDevice,
            ),
            !old(self).created().contains(wallet_info_basic.wallet_id@) && old(
                self,
            ).backed_up().contains(wallet_info_basic.wallet_id@) ==> r == Err::<(), GatewayError>(
                GatewayError::WalletAlreadyBackedUpOnDevice,
            ),
            r is Ok <==> !old(self).created().contains(wallet_info_basic.wallet_id@) && !old(
                self,
            ).backed_up().contains(wallet_info_basic.wallet_id@),
            r is Ok ==> final(self).created() == old(self).created().push(
                wallet_info_basic.wallet_id@,
            ),
            r is Err ==> final(self).created() == old(self).created(),
            final(self).backed_up() == old(self).backed_up(),
            final(self).same_identity(old(self)),
    {
        proof {
            use_type_invariant(&*self);
        }
        let id = wallet_info_basic.id();
        if contains_str(&self.created_wallets, id) {
            return Err(GatewayError::WalletAlreadyCreatedOnDevice);
        }
        if contains_str(&self.backed_up_wallets, id) {
            return Err(GatewayError::WalletAlreadyBackedUpOnDevice);
        }
        let mut c = Vec::new();
        std::mem::swap(&mut c, &mut self.created_wallets);
        let ghost before = c@;
        push_unique(&mut c, clone_str(id));
        proof {
            assert(c@ == before.push(c@.last()));
            assert(views(c@) =~= views(before).push(id@));
        }
        self.created_wallets = c;
        Ok(())
    }

    /// Records that the device holds a backup of `wallet_id`; a wallet it
    /// already lists as backed up is left as it is.
    pub fn add_backup_wallet(&mut self, wallet_id: &WalletID) -> (r: Result<(), GatewayError>)
        ensures
            r is Ok,
            old(self).backed_up().contains(wallet_id@) ==> final(self).backed_up() == old(
                self,
            ).backed_up(),
            !old(self).backed_up().contains(wallet_id@) ==> final(self).backed_up() == old(
                self,
            ).backed_up().push(wallet_id@),
            final(self).created() == old(self).created(),
            final(self).same_identity(old(self)),
    {
        proof {
            use_type_invariant(&*self);
        }
        if contains_str(&self.backed_up_wallets, wallet_id) {
            return Ok(());
        }
        let mut b = Vec::new();
        std::mem::swap(&mut b, &mut self.backed_up_wallets);
        let ghost before = b@;
        push_unique(&mut b, clone_str(wallet_id));
        proof {
            assert(b@ == before.push(b@.last()));
            assert(views(b@) =~= views(before).push(wallet_id@));
        }
        self.backed_up_wallets = b;
        Ok(())
    }

    /// How many wallets the device holds: created plus backed up (a count
    /// beyond what `usize` holds reads as `usize::MAX`).
    pub fn existing_wallets_num(&self) -> (r: usize)
        ensures
            r == (if self.count() <= usize::MAX {
                self.count()
            } else {
                usize::MAX as nat
            }),
    {
        proof {
            use_type_invariant(self);
        }
        match self.created_wallets.len().checked_add(self.backed_up_wallets.len()) {
            Some(n) => n,
            None => usize::MAX,
        }
    }

    /// Every wallet the device holds, once each: created ones first.
    pub fn wallet_id_list(&self) -> (r: Vec<WalletID>)
        ensures
            view_set(r@) == self.created().to_set().union(self.backed_up().to_set()),
            views(r@).no_duplicates(),
    {
        proof {
            use_type_invariant(self);
        }
        union_strs(&self.created_wallets, &self.backed_up_wallets)
    }

    /// Removes `wallet_id` from the created wallets; fails when it is not
    /// among them.
    pub fn remove_owned_wallet(&mut self, wallet_id: &WalletID) -> (r: Result<(), GatewayError>)
        ensures
            r is Ok <==> old(self).created().contains(wallet_id@),
            r matches Err(e) ==> e == GatewayError::WalletNotOwnedByDevice,
            r is Ok ==> final(self).created() == old(self).created().remove(
                old(self).created().index_of(wallet_id@),
            ),
            r is Err ==> final(self).created() == old(self).created(),
            final(self).created().to_set() == old(self).created().to_set().remove(wallet_id@),
            final(self).backed_up() == old(self).backed_up(),
            final(self).same_identity(old(self)),
    {
        proof {
            use_type_invariant(&*self);
        }
        if !contains_str(&self.created_wallets, wallet_id) {
            proof {
                assert(old(self).created().to_set().remove(wallet_id@) =~= old(self).created().to_set());
            }
            return Err(GatewayError::WalletNotOwnedByDevice);
        }
        let mut c = Vec::new();
        std::mem::swap(&mut c, &mut self.created_wallets);
        let ghost before = c@;
        remove_str(&mut c, wallet_id);
        proof {
            assert(views(c@).len() == c@.len());
            assert(views(before).len() == before.len());
            assert(c@.len() <= before.len());
        }
        self.created_wallets = c;
        Ok(())
    }

    /// The public part of the record.
    pub fn into_basic(self) -> (r: DeviceInfoBasic)
        ensures
            r.owner@ == self.owner_spec(),
            r.id@ == self.id_spec(),
            r.register_time == self.register_time_spec(),
            views(r.created_wallets@) == self.created(),
            views(r.backed_up_wallets@) == self.backed_up(),
    {
        DeviceInfoBasic {
            owner: self.owner,
            id: self.id,
            register_time: self.register_time,
            created_wallets: self.created_wallets,
            backed_up_wallets: self.backed_up_wallets,
        }
    }

    /// A copy of the public part of the record.
    pub fn basic(&self) -> (r: DeviceInfoBasic)
        ensures
            r.owner@ == self.owner_spec(),
            r.id@ == self.id_spec(),
            r.register_time == self.register_time_spec(),
            views(r.created_wallets@) == self.created(),
            views(r.backed_up_wallets@) == self.backed_up(),
    {
        DeviceInfoBasic {
            owner: clone_str(&self.owner),
            id: clone_str(&self.id),
            register_time: self.register_time,
            created_wallets: clone_strs(&self.created_wallets),
            backed_up_wallets: clone_strs(&self.backed_up_wallets),
        }
    }
}

impl DeviceIndex {
    pub closed spec fn email_spec(&self) -> Seq<char> {
        self.email@
    }

    /// The user's devices.
    pub closed spec fn devices(&self) -> Seq<Seq<char>> {
        views(self.device_list@)
    }

    /// The index of `email`'s devices; duplicate ids are kept once.
    pub fn new(email: Email, device_list: Vec<DeviceID>) -> (r: Self)
        ensures
            r.email_spec() == email@,
            r.devices().to_set() == view_set(device_list@),
            r.devices().no_duplicates(),
            views(device_list@).no_duplicates() ==> r.devices() == views(device_list@),
    {
        DeviceIndex { email, device_list: dedup_strs(&device_list) }
    }

    pub fn email(&self) -> (r: &Email)
        ensures
            r@ == self.email_spec(),
    {
        &self.email
    }

    pub fn device_list(&self) -> (r: &Vec<DeviceID>)
        ensures
            views(r@) == self.devices(),
    {
        &self.device_list
    }

    pub fn contains(&self, device_id: &DeviceID) -> (r: bool)
        ensures
            r == self.devices().contains(device_id@),
    {
        contains_str(&self.device_list, device_id)
    }
}

} // verus!
