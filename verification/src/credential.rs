//! Key material (the CA, users' client credentials, the TLS client's
//! credential), pending transactions and their delegation, and the
//! periodic tasks' interface.
use vstd::prelude::*;
use crate::model::{clone_bytes, clone_str, CkPrivateKey, CkPublicKey, Email};
use crate::storage::Storable;

verus! {

/// A user's client credential: key pair and certificate.
pub struct UserCredential {
    email: Email,
    public_key: CkPublicKey,
    private_key: CkPrivateKey,
    cert: Vec<u8>,
}

impl UserCredential {
    pub closed spec fn email_spec(&self) -> Seq<char> {
        self.email@
    }

    pub closed spec fn public_key_spec(&self) -> Seq<u8> {
        self.public_key.0@
    }

    pub closed spec fn private_key_spec(&self) -> Seq<u8> {
        self.private_key.0@
    }

    pub closed spec fn cert_spec(&self) -> Seq<u8> {
        self.cert@
    }

    pub fn new(email: Email, public_key: CkPublicKey, private_key: CkPrivateKey, cert: Vec<u8>) -> (r: Self)
        ensures
            r.email_spec() == email@,
            r.public_key_spec() == public_key.0@,
            r.private_key_spec() == private_key.0@,
            r.cert_spec() == cert@,
    {
        UserCredential { email, public_key, private_key, cert }
    }

    pub fn public_key(&self) -> (r: &CkPublicKey)
        ensures
            r.0@ == self.public_key_spec(),
    {
        &self.public_key
    }

    pub fn private_key(&self) -> (r: &CkPrivateKey)
        ensures
            r.0@ == self.private_key_spec(),
    {
        &self.private_key
    }

    pub fn cert(&self) -> (r: &Vec<u8>)
        ensures
            r@ == self.cert_spec(),
    {
        &self.cert
    }

    /// The private key, giving up the rest.
    pub fn into_private_key(self) -> (r: CkPrivateKey)
        ensures
            r.0@ == self.private_key_spec(),
    {
        self.private_key
    }
}

impl Storable for UserCredential {
    open spec fn table_name_spec() -> Seq<char> {
        "UserCredential"@
    }

    open spec fn unique_id_spec(&self) -> Seq<char> {
        self.email_spec()
    }

    fn table_name() -> (r: &'static str) {
        "UserCredential"
    }

    fn unique_id(&self) -> (r: String) {
        clone_str(&self.email)
    }
}

/// The certificate authority of the gateway: its certificate (PEM and
/// DER, the latter the trust anchor for verifying the server) and key.
pub struct CaCredential {
    ca_cert: Vec<u8>,
    ca_der: Vec<u8>,
    ca_key: Vec<u8>,
}

impl CaCredential {
    pub closed spec fn cert_spec(&self) -> Seq<u8> {
        self.ca_cert@
    }

    pub closed spec fn der_spec(&self) -> Seq<u8> {
        self.ca_der@
    }

    pub closed spec fn key_spec(&self) -> Seq<u8> {
        self.ca_key@
    }

    pub fn new(ca_cert: Vec<u8>, ca_der: Vec<u8>, ca_key: Vec<u8>) -> (r: Self)
        ensures
            r.cert_spec() == ca_cert@,
            r.der_spec() == ca_der@,
            r.key_spec() == ca_key@,
    {
        CaCredential { ca_cert, ca_der, ca_key }
    }

    pub fn ca_cert(&self) -> (r: &Vec<u8>)
        ensures
            r@ == self.cert_spec(),
    {
        &self.ca_cert
    }

    pub fn ca_der(&self) -> (r: &Vec<u8>)
        ensures
            r@ == self.der_spec(),
    {
        &self.ca_der
    }

    pub fn ca_key(&self) -> (r: &Vec<u8>)
        ensures
            r@ == self.key_spec(),
    {
        &self.ca_key
    }
}

impl Storable for CaCredential {
    open spec fn table_name_spec() -> Seq<char> {
        "CaCredential"@
    }

    /// There is one CA; it is stored under its own name.
    open spec fn unique_id_spec(&self) -> Seq<char> {
        "CaCredential"@
    }

    fn table_name() -> (r: &'static str) {
        "CaCredential"
    }

    fn unique_id(&self) -> (r: String) {
        String::from_str("CaCredential")
    }
}

/// What the TLS client presents to the TEE: its certificate chain (PEM),
/// its certificate (DER) and key, and the CA certificate (DER) that the
/// server's certificate must chain to.
pub struct Credential {
    inter_cert_chain: Vec<u8>,
    client_der: Vec<u8>,
    client_private_key: Vec<u8>,
    server_ca_der: Vec<u8>,
}

impl Credential {
    pub closed spec fn inter_cert_chain_spec(&self) -> Seq<u8> {
        self.inter_cert_chain@
    }

    pub closed spec fn client_der_spec(&self) -> Seq<u8> {
        self.client_der@
    }

    pub closed spec fn client_private_key_spec(&self) -> Seq<u8> {
        self.client_private_key@
    }

    pub closed spec fn server_ca_der_spec(&self) -> Seq<u8> {
        self.server_ca_der@
    }

    pub fn new(
        inter_cert_chain: Vec<u8>,
        client_der: Vec<u8>,
        client_private_key: Vec<u8>,
        server_ca_der: Vec<u8>,
    ) -> (r: Self)
        ensures
            r.inter_cert_chain_spec() == inter_cert_chain@,
            r.client_der_spec() == client_der@,
            r.client_private_key_spec() == client_private_key@,
            r.server_ca_der_spec() == server_ca_der@,
    {
        Credential { inter_cert_chain, client_der, client_private_key, server_ca_der }
    }

    /// The CA certificate the server's certificate must chain to.
    pub fn server_ca_cert(&self) -> (r: Vec<u8>)
        ensures
            r@ == self.server_ca_der_spec(),
    {
        clone_bytes(&self.server_ca_der)
    }

    pub fn inter_cert_chain(&self) -> (r: &Vec<u8>)
        ensures
            r@ == self.inter_cert_chain_spec(),
    {
        &self.inter_cert_chain
    }

    pub fn client_der(&self) -> (r: &Vec<u8>)
        ensures
            r@ == self.client_der_spec(),
    {
        &self.client_der
    }

    /// The client's private key, giving up the rest.
    pub fn into_private_key(self) -> (r: Vec<u8>)
        ensures
            r@ == self.client_private_key_spec(),
    {
        self.client_private_key
    }
}

/// How a transaction is handed to the delegation service: for how long,
/// and at what gas price and limit.
pub struct DelegationInfo {
    /// In seconds.
    pub valid_duration: u64,
    pub gas_unit_price: u128,
    pub gas_units: u128,
}

impl DelegationInfo {
    pub fn new(valid_duration: u64, gas_unit_price: u128, gas_units: u128) -> (r: Self)
        ensures
            r.valid_duration == valid_duration,
            r.gas_unit_price == gas_unit_price,
            r.gas_units == gas_units,
    {
        DelegationInfo { valid_duration, gas_unit_price, gas_units }
    }
}

/// A transaction handed to the delegation service, valid until
/// `expiration_time` (seconds since the epoch).
pub struct TxDelegation<T> {
    pub tx: T,
    pub delegation_info: DelegationInfo,
    pub signed_payload: Option<Vec<u8>>,
    pub expiration_time: u64,
}

/// When a delegation started at `start` and valid for `duration` seconds
/// expires: their sum, or the last second a `u64` counts.
pub open spec fn expiry_of(start: u64, duration: u64) -> u64 {
    if start + duration <= u64::MAX {
        (start + duration) as u64
    } else {
        u64::MAX
    }
}

impl<T> TxDelegation<T> {
    /// A delegation started at `now`, unsigned yet, expiring after the
    /// valid duration (at the last second a `u64` counts, should that come
    /// first).
    pub fn new(tx: T, delegation_info: DelegationInfo, now: u64) -> (r: Self)
        ensures
            r.tx == tx,
            r.delegation_info == delegation_info,
            r.signed_payload is None,
            r.expiration_time == expiry_of(now, delegation_info.valid_duration),
    {
        let expiration_time = match now.checked_add(delegation_info.valid_duration) {
            Some(t) => t,
            None => u64::MAX,
        };
        TxDelegation { tx, delegation_info, signed_payload: None, expiration_time }
    }

    pub fn tx(&self) -> (r: &T)
        ensures
            *r == self.tx,
    {
        &self.tx
    }

    /// The transaction, the delegation given up.
    pub fn take_tx(self) -> (r: T)
        ensures
            r == self.tx,
    {
        self.tx
    }

    /// Whether the delegation has expired at `now`: strictly after its
    /// expiration time.
    pub fn expired(&self, now: u64) -> (r: bool)
        ensures
            r == (now > self.expiration_time),
    {
        now > self.expiration_time
    }
}

/// A transaction not settled yet, in its stage.
pub enum PendingTx<T> {
    PendingForApproval(T),
    ReadyForSigning(T),
    /// A copy is with the delegation service.
    DelegationStarted(T),
    /// Every delegation attempt failed; this is the only copy.
    DelegationExpired(T),
}

impl<T> PendingTx<T> {
    pub open spec fn tx_spec(&self) -> T {
        match self {
            PendingTx::PendingForApproval(tx) => *tx,
            PendingTx::ReadyForSigning(tx) => *tx,
            PendingTx::DelegationStarted(tx) => *tx,
            PendingTx::DelegationExpired(tx) => *tx,
        }
    }

    pub open spec fn status_spec(&self) -> Seq<char> {
        match self {
            PendingTx::PendingForApproval(_) => "pendingForApproval"@,
            PendingTx::ReadyForSigning(_) => "readyForSigning"@,
            PendingTx::DelegationStarted(_) => "delegationStarted"@,
            PendingTx::DelegationExpired(_) => "DelegationExpired"@,
        }
    }

    pub fn tx(&self) -> (r: &T)
        ensures
            *r == self.tx_spec(),
    {
        match self {
            PendingTx::PendingForApproval(tx) => tx,
            PendingTx::ReadyForSigning(tx) => tx,
            PendingTx::DelegationStarted(tx) => tx,
            PendingTx::DelegationExpired(tx) => tx,
        }
    }

    /// The name of the stage, as logs show it.
    pub fn status(&self) -> (r: &'static str)
        ensures
            r@ == self.status_spec(),
    {
        match self {
            PendingTx::PendingForApproval(_) => "pendingForApproval",
            PendingTx::ReadyForSigning(_) => "readyForSigning",
            PendingTx::DelegationStarted(_) => "delegationStarted",
            PendingTx::DelegationExpired(_) => "DelegationExpired",
        }
    }
}

/// A task the runners execute periodically.
pub trait Executable {
    fn exec(&self);
}

} // verus!
