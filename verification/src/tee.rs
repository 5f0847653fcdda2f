//! The TEE device that is online: its status, the configuration committed
//! for it, and when it must be synced.
use vstd::prelude::*;
use crate::error::GatewayError;
use crate::model::{clone_bytes, clone_str, DeviceID};
use crate::storage::Storable;

verus! {

/// The running service of a TEE and the configuration version it runs.
#[derive(Clone, Copy, Debug, PartialEq, Eq, Structural)]
pub struct ServiceInfo {
    pub config_version: u64,
}

/// What the online TEE reports about itself.
#[derive(Clone, Copy, Debug, PartialEq, Eq, Structural)]
pub enum TeeOnlineStatus {
    ServiceRunning(ServiceInfo),
    WaitingForSync,
    ServicePaused,
}

impl TeeOnlineStatus {
    pub fn is_running(&self) -> (r: bool)
        ensures
            r == (self is ServiceRunning),
    {
        match self {
            TeeOnlineStatus::ServiceRunning(_) => true,
            _ => false,
        }
    }

    pub fn is_waiting_for_sync(&self) -> (r: bool)
        ensures
            r == (self is WaitingForSync),
    {
        match self {
            TeeOnlineStatus::WaitingForSync => true,
            _ => false,
        }
    }

    /// The configuration version of a running service.
    pub fn config_version(&self) -> (r: Result<u64, GatewayError>)
        ensures
            match self {
                TeeOnlineStatus::ServiceRunning(info) => r == Ok::<u64, GatewayError>(info.config_version),
                _ => r == Err::<u64, GatewayError>(GatewayError::TeeNotRunning),
            },
    {
        match self {
            TeeOnlineStatus::ServiceRunning(info) => Ok(info.config_version),
            _ => Err(GatewayError::TeeNotRunning),
        }
    }
}

/// The status shown to console clients; `Offline` when the TEE cannot be
/// reached.
#[derive(Clone, Copy, Debug, PartialEq, Eq, Structural)]
pub enum TeeStatusForClient {
    ServiceRunning(ServiceInfo),
    WaitingForSync,
    ServicePaused,
    Offline,
}

impl TeeStatusForClient {
    /// A TEE's own status, as shown to clients.
    pub fn from_status(status: TeeOnlineStatus) -> (r: Self)
        ensures
            r == (match status {
                TeeOnlineStatus::ServiceRunning(info) => TeeStatusForClient::ServiceRunning(info),
                TeeOnlineStatus::WaitingForSync => TeeStatusForClient::WaitingForSync,
                TeeOnlineStatus::ServicePaused => TeeStatusForClient::ServicePaused,
            }),
    {
        match status {
            TeeOnlineStatus::ServiceRunning(info) => TeeStatusForClient::ServiceRunning(info),
            TeeOnlineStatus::WaitingForSync => TeeStatusForClient::WaitingForSync,
            TeeOnlineStatus::ServicePaused => TeeStatusForClient::ServicePaused,
        }
    }

    /// The status of a TEE that did not answer.
    pub fn default() -> (r: Self)
        ensures
            r == TeeStatusForClient::Offline,
    {
        TeeStatusForClient::Offline
    }

    /// The status shown for a device: its TEE's own status when it is the
    /// online device, else offline.
    pub fn for_device(status: Option<TeeOnlineStatus>) -> (r: Self)
        ensures
            status is None ==> r == TeeStatusForClient::Offline,
            status matches Some(s) ==> r == TeeStatusForClient::from_status_spec(s),
    {
        match status {
            Some(s) => TeeStatusForClient::from_status(s),
            None => TeeStatusForClient::default(),
        }
    }

    pub open spec fn from_status_spec(status: TeeOnlineStatus) -> Self {
        match status {
            TeeOnlineStatus::ServiceRunning(info) => TeeStatusForClient::ServiceRunning(info),
            TeeOnlineStatus::WaitingForSync => TeeStatusForClient::WaitingForSync,
            TeeOnlineStatus::ServicePaused => TeeStatusForClient::ServicePaused,
        }
    }
}

/// The device whose TEE is online, and what it reported.
pub struct OnlineDevice {
    pub device_id: DeviceID,
    pub status: TeeOnlineStatus,
}

impl OnlineDevice {
    pub fn new(device_id: DeviceID, status: TeeOnlineStatus) -> (r: Self)
        ensures
            r.device_id == device_id,
            r.status == status,
    {
        OnlineDevice { device_id, status }
    }

    pub fn status(&self) -> (r: &TeeOnlineStatus)
        ensures
            *r == self.status,
    {
        &self.status
    }

    pub fn device_id(&self) -> (r: DeviceID)
        ensures
            r@ == self.device_id@,
    {
        clone_str(&self.device_id)
    }

    /// Records that the TEE now runs configuration `config_version`.
    pub fn set_running(&mut self, config_version: u64)
        ensures
            final(self).status == TeeOnlineStatus::ServiceRunning(ServiceInfo { config_version }),
            final(self).device_id == old(self).device_id,
    {
        self.status = TeeOnlineStatus::ServiceRunning(ServiceInfo { config_version });
    }

    pub fn duplicate(&self) -> (r: Self)
        ensures
            r.device_id@ == self.device_id@,
            r.status == self.status,
    {
        OnlineDevice { device_id: clone_str(&self.device_id), status: self.status }
    }
}

impl Storable for OnlineDevice {
    open spec fn table_name_spec() -> Seq<char> {
        "OnlineDevice"@
    }

    /// There is one online device at a time; it is stored under a fixed id.
    open spec fn unique_id_spec(&self) -> Seq<char> {
        "OnlineDevice"@
    }

    fn table_name() -> (r: &'static str) {
        "OnlineDevice"
    }

    fn unique_id(&self) -> (r: String) {
        String::from_str("OnlineDevice")
    }
}

/// A configuration signed by the CA for a TEE, with its version.
pub struct TeeConfig {
    pub config_version: u64,
    pub signed_payload: Vec<u8>,
}

impl TeeConfig {
    pub fn duplicate(&self) -> (r: Self)
        ensures
            r.config_version == self.config_version,
            r.signed_payload@ == self.signed_payload@,
    {
        TeeConfig { config_version: self.config_version, signed_payload: clone_bytes(&self.signed_payload) }
    }
}

/// The configuration committed for a device, waiting to be synced into
/// its TEE.
pub struct CommittedConfig {
    pub device_id: DeviceID,
    pub timestamp: u64,
    pub signed_config: TeeConfig,
}

impl CommittedConfig {
    pub fn new(device_id: DeviceID, timestamp: u64, signed_config: TeeConfig) -> (r: Self)
        ensures
            r.device_id == device_id,
            r.timestamp == timestamp,
            r.signed_config == signed_config,
    {
        CommittedConfig { device_id, timestamp, signed_config }
    }

    pub fn config_version(&self) -> (r: u64)
        ensures
            r == self.signed_config.config_version,
    {
        self.signed_config.config_version
    }

    pub fn duplicate(&self) -> (r: Self)
        ensures
            r.device_id@ == self.device_id@,
            r.timestamp == self.timestamp,
            r.signed_config.config_version == self.signed_config.config_version,
            r.signed_config.signed_payload@ == self.signed_config.signed_payload@,
    {
        CommittedConfig {
            device_id: clone_str(&self.device_id),
            timestamp: self.timestamp,
            signed_config: self.signed_config.duplicate(),
        }
    }
}

impl Storable for CommittedConfig {
    open spec fn table_name_spec() -> Seq<char> {
        "CommittedConfig"@
    }

    open spec fn unique_id_spec(&self) -> Seq<char> {
        self.device_id@
    }

    fn table_name() -> (r: &'static str) {
        "CommittedConfig"
    }

    fn unique_id(&self) -> (r: String) {
        clone_str(&self.device_id)
    }
}

/// Whether a TEE in `status` must take a committed configuration of
/// version `committed_version`: when it waits for one, or runs an older
/// version.
pub open spec fn needs_sync(status: TeeOnlineStatus, committed_version: u64) -> bool {
    match status {
        TeeOnlineStatus::WaitingForSync => true,
        TeeOnlineStatus::ServiceRunning(info) => committed_version > info.config_version,
        TeeOnlineStatus::ServicePaused => false,
    }
}

/// The configuration to sync into the online TEE, if any: the one
/// committed for it, when it needs syncing.
pub fn need_sync(online_device: &OnlineDevice, committed: Option<CommittedConfig>) -> (r: Option<CommittedConfig>)
    ensures
        r is Some <==> (committed matches Some(c) && needs_sync(online_device.status, c.signed_config.config_version)),
        r is Some ==> r == committed,
{
    let tee_status = online_device.status();
    let committed_config = match committed {
        Some(config) => config,
        None => {
            return None;
        },
    };
    if tee_status.is_waiting_for_sync() {
        return Some(committed_config);
    }
    if tee_status.is_running() {
        match tee_status.config_version() {
            Ok(tee_config_version) => {
                if committed_config.config_version() > tee_config_version {
                    return Some(committed_config);
                }
            },
            Err(_) => {},
        }
    }
    None
}

} // verus!
