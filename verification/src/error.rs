//! Errors reported by the gateway's operations.
use vstd::prelude::*;

verus! {

#[derive(Clone, Copy, Debug, PartialEq, Eq, Structural)]
pub enum GatewayError {
    /// No user is registered under the email or id.
    UserNotFound,
    /// A user with this email is already registered.
    UserAlreadyExists,
    /// The user holds none of the roles the operation asks for.
    UnknownRole,
    /// The user is not an administrator.
    NotAdmin,
    /// The user is not an approver.
    NotApprover,
    /// The user is not a transaction operator.
    NotTxOperator,
    /// The user is not a viewer.
    NotViewer,
    /// The user is not a device operator.
    NotDeviceOperator,
    /// The device is unknown.
    DeviceNotFound,
    /// The device is already registered (to some user).
    DeviceAlreadyRegistered,
    /// No device index exists for the user.
    DeviceIndexNotFound,
    /// No device is online.
    NoOnlineDevice,
    /// The wallet is unknown.
    WalletNotFound,
    /// A wallet with this id is already registered.
    WalletAlreadyExists,
    /// The wallet is already among the device's created wallets.
    WalletAlreadyCreatedOnDevice,
    /// The wallet is already among the device's backed-up wallets.
    WalletAlreadyBackedUpOnDevice,
    /// The wallet was not created by the device.
    WalletNotOwnedByDevice,
    /// The device already holds the most wallets it may hold.
    TooManyWallets,
    /// A participant of the wallet is not a registered user.
    ParticipantNotFound,
    /// The wallet was created in the TEE but never synced back.
    WalletNotSynced,
    /// The asset is not held in the record.
    AssetNotFound,
    /// An amount would fall below zero.
    InsufficientBalance,
    /// An amount would exceed its range.
    AmountOverflow,
    /// The network is not an EVM network.
    NotEvmNetwork,
    /// The asset type is not supported by the operation.
    UnsupportedAssetType,
    /// The asset has no contract address on this network.
    MissingContractAddress,
    /// The name is empty.
    EmptyName,
    /// The name is longer than allowed.
    NameTooLong,
    /// A string is not the expected number.
    InvalidNumber,
    /// The byte string is not valid UTF-8.
    InvalidUtf8,
    /// The text is not valid base64.
    InvalidBase64,
    /// The pending transaction is not in the state the operation needs.
    UnexpectedTxStatus,
    /// The transaction carries no signed payload.
    MissingSignedPayload,
    /// The TEE reports no running service.
    TeeNotRunning,
    /// Nothing needs to be synced with the TEE.
    NoNeedToSync,
    /// A link could not be formed.
    InvalidUrl,
    /// A quantity lacks its `0x` prefix.
    MissingHexPrefix,
    /// The network is not a Bitcoin network.
    NotBtcNetwork,
    /// An outside service answered with a failure.
    ServiceFailure,
    /// A transaction waiting for approval has no current approval stage.
    NoCurrentStage,
    /// The current approval stage of a transaction names no approvers.
    NoStageApprovers,
    /// The event sends no notification in this stage.
    UnsupportedEvent,
    /// The system clock reads a time before the Unix epoch.
    ClockBeforeEpoch,
    /// The account that sends a transaction has no Ethereum account.
    EthAccountNotFound,
    /// No contract ABI is configured.
    MissingContractAbi,
    /// The contract ABI has no function of the needed name.
    MissingAbiFunction,
    /// The arguments do not fit the inputs of the ABI's function.
    InvalidAbiInput,
}

} // verus!
