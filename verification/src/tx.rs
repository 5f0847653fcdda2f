//! How delegated transactions move on: what the delegation runner does
//! with each delegation, the gas price it signs with, and the history
//! record a settled transaction leaves.
use vstd::prelude::*;
use crate::credential::{PendingTx, TxDelegation};
use crate::error::GatewayError;
use crate::rpc::TxSubmissionResult;

verus! {

/// What the delegation runner does next with a delegation.
#[derive(Clone, Copy, Debug, PartialEq, Eq, Structural)]
pub enum DelegationAction {
    /// It expired: mark the pending transaction expired and drop it.
    Expire,
    /// Not signed yet: have the TEE sign it, then send it.
    SignAndSend,
    /// Signed: send it.
    Send,
}

/// The next step for `delegation` at `now`.
pub fn delegation_action<T>(delegation: &TxDelegation<T>, now: u64) -> (r: DelegationAction)
    ensures
        now > delegation.expiration_time ==> r == DelegationAction::Expire,
        now <= delegation.expiration_time && delegation.signed_payload is None ==> r == DelegationAction::SignAndSend,
        now <= delegation.expiration_time && delegation.signed_payload is Some ==> r == DelegationAction::Send,
{
    if delegation.expired(now) {
        DelegationAction::Expire
    } else if delegation.signed_payload.is_none() {
        DelegationAction::SignAndSend
    } else {
        DelegationAction::Send
    }
}

/// The pending transaction of an expired delegation: it must be with the
/// delegation service, and becomes expired.
pub fn expire_pending<T>(pending: PendingTx<T>) -> (r: Result<PendingTx<T>, GatewayError>)
    ensures
        pending matches PendingTx::DelegationStarted(tx) ==> r == Ok::<PendingTx<T>, GatewayError>(PendingTx::DelegationExpired(tx)),
        !(pending is DelegationStarted) ==> r == Err::<PendingTx<T>, GatewayError>(GatewayError::UnexpectedTxStatus),
{
    match pending {
        PendingTx::DelegationStarted(tx) => Ok(PendingTx::DelegationExpired(tx)),
        _ => Err(GatewayError::UnexpectedTxStatus),
    }
}

/// The gas price a transaction is signed with: the network's current
/// price when it is below the approved one, else the approved one.
pub fn signing_gas_price(approved: u128, current: u128) -> (r: u128)
    ensures
        r == (if current < approved {
            current
        } else {
            approved
        }),
        r <= approved,
{
    if current < approved {
        current
    } else {
        approved
    }
}

/// Where a transaction stands with its approvers.
#[derive(Clone, Copy, Debug, PartialEq, Eq, Structural)]
pub enum TransactionStatus {
    PendingForApproval,
    Approved,
    Rejected,
}

/// Where a transaction stands, from its approval chain: rejected when any
/// approver rejected it, else waiting while any approval is pending, else
/// approved (then every stage must have approved).
pub fn overall_status(any_reject: bool, any_pending: bool, all_approved: bool) -> (r: TransactionStatus)
    requires
        !any_reject && !any_pending ==> all_approved,
    ensures
        any_reject ==> r == TransactionStatus::Rejected,
        !any_reject && any_pending ==> r == TransactionStatus::PendingForApproval,
        !any_reject && !any_pending ==> r == TransactionStatus::Approved,
{
    if any_reject {
        TransactionStatus::Rejected
    } else if any_pending {
        TransactionStatus::PendingForApproval
    } else {
        TransactionStatus::Approved
    }
}

/// The EVM chain a transaction is sent on.
#[derive(Clone, Copy, Debug, PartialEq, Eq, Structural)]
pub enum EvmChain {
    Eth,
    Bsc,
}

/// What signing reads and sets of an EVM transaction.
#[derive(Clone, Copy, Debug, PartialEq, Eq, Structural)]
pub struct EvmTxFields {
    pub nonce: Option<u128>,
    pub gas_price: u128,
}

/// A transaction as signing sees it: an EVM one, with the fields signing
/// sets, or a Bitcoin one, which signing takes as it is.
#[derive(Clone, Copy, Debug, PartialEq, Eq, Structural)]
pub enum SigningTx {
    Evm(EvmTxFields),
    Btc,
}

/// What must be read from the network before an EVM transaction is
/// signed: the nonce and gas price of its sender's Ethereum address on the
/// chain of its asset (`is_ethereum_chain`, else `is_bsc_chain`). A
/// Bitcoin transaction needs nothing. An EVM transaction fails when the
/// sender has no Ethereum account, then when its asset is on neither
/// chain.
pub fn signing_query(
    tx: &SigningTx,
    eth_address: Option<String>,
    is_ethereum_chain: bool,
    is_bsc_chain: bool,
) -> (r: Result<Option<(EvmChain, String)>, GatewayError>)
    ensures
        *tx is Btc ==> r == Ok::<Option<(EvmChain, String)>, GatewayError>(None),
        *tx is Evm && eth_address is None ==> r == Err::<Option<(EvmChain, String)>, GatewayError>(
            GatewayError::EthAccountNotFound,
        ),
        *tx is Evm && eth_address is Some ==> {
            &&& is_ethereum_chain ==> (r matches Ok(Some(q)) && q.0 == EvmChain::Eth && q.1 == eth_address->0)
            &&& !is_ethereum_chain && is_bsc_chain ==> (r matches Ok(Some(q)) && q.0 == EvmChain::Bsc && q.1
                == eth_address->0)
            &&& !is_ethereum_chain && !is_bsc_chain ==> r == Err::<Option<(EvmChain, String)>, GatewayError>(
                GatewayError::UnsupportedAssetType,
            )
        },
{
    match tx {
        SigningTx::Btc => Ok(None),
        SigningTx::Evm(_) => {
            let address = match eth_address {
                Some(a) => a,
                None => {
                    return Err(GatewayError::EthAccountNotFound);
                },
            };
            if is_ethereum_chain {
                Ok(Some((EvmChain::Eth, address)))
            } else if is_bsc_chain {
                Ok(Some((EvmChain::Bsc, address)))
            } else {
                Err(GatewayError::UnsupportedAssetType)
            }
        },
    }
}

/// `tx` made ready for signing with the `nonce` and the `current_gas_price`
/// read from its chain: an EVM transaction takes the nonce and signs with
/// the current price when it is below the approved one (see
/// `signing_gas_price`); a Bitcoin transaction stays as it is.
pub fn prepare_tx_for_signing(tx: SigningTx, nonce: u128, current_gas_price: u128) -> (r: SigningTx)
    ensures
        tx matches SigningTx::Evm(f) ==> r == (SigningTx::Evm(
            EvmTxFields {
                nonce: Some(nonce),
                gas_price: if current_gas_price < f.gas_price {
                    current_gas_price
                } else {
                    f.gas_price
                },
            },
        )),
        tx is Btc ==> r == tx,
{
    match tx {
        SigningTx::Evm(f) => SigningTx::Evm(
            EvmTxFields { nonce: Some(nonce), gas_price: signing_gas_price(f.gas_price, current_gas_price) },
        ),
        SigningTx::Btc => SigningTx::Btc,
    }
}

/// How a transaction was settled.
pub enum TxHistoryStatus {
    /// On chain, with its hash.
    OnChain(String),
    /// The network refused it, with its message.
    RejectedByNetwork(String),
    RejectedByApprover,
    /// The network could not be reached.
    Cached,
    RecalledByOperator,
}

/// Debug formatting of a string (`format!("{:?}", s)`): std writes it in
/// double quotes with special characters escaped; the text is only named
/// here.
pub uninterp spec fn debug_quoted(s: Seq<char>) -> Seq<char>;

/// `<str as Debug>::fmt`, through `format!`; its result is only named.
#[verifier::external_body]
pub(crate) fn debug_string(s: &str) -> (r: String)
    ensures
        r@ == debug_quoted(s@),
{
    format!("{:?}", s)
}

/// The line that notifications give for how a transaction settled.
pub open spec fn history_message(status: TxHistoryStatus) -> Seq<char> {
    match status {
        TxHistoryStatus::OnChain(h) => "tx hash: "@ + debug_quoted(h@),
        TxHistoryStatus::RejectedByNetwork(m) => "error message: "@ + debug_quoted(m@),
        TxHistoryStatus::RejectedByApprover => "rejected by approver"@,
        TxHistoryStatus::Cached => "network error or unknown error"@,
        TxHistoryStatus::RecalledByOperator => "recalled by operator"@,
    }
}

/// A settled transaction, with its signed payload, how it settled and
/// when (seconds).
pub struct HistoryTx<T> {
    pub tx: T,
    pub signed_payload: Option<Vec<u8>>,
    pub tx_status: TxHistoryStatus,
    pub timestamp: u64,
}

impl<T> HistoryTx<T> {
    /// A transaction sent to the network at `now`: on chain when the
    /// network took it, refused with its message otherwise.
    pub fn from_submitted(tx: T, signed_payload: Option<Vec<u8>>, sr: TxSubmissionResult, now: u64) -> (r: Self)
        ensures
            r.tx == tx,
            r.signed_payload == signed_payload,
            r.timestamp == now,
            sr matches TxSubmissionResult::Accepted(h) ==> r.tx_status == TxHistoryStatus::OnChain(h),
            sr matches TxSubmissionResult::Rejected(m) ==> r.tx_status == TxHistoryStatus::RejectedByNetwork(m),
    {
        HistoryTx {
            tx,
            signed_payload,
            tx_status: match sr {
                TxSubmissionResult::Accepted(tx_hash) => TxHistoryStatus::OnChain(tx_hash),
                TxSubmissionResult::Rejected(err_msg) => TxHistoryStatus::RejectedByNetwork(err_msg),
            },
            timestamp: now,
        }
    }

    /// A transaction an approver rejected at `now`.
    pub fn from_approver_rejected(tx: T, now: u64) -> (r: Self)
        ensures
            r.tx == tx,
            r.signed_payload is None,
            r.tx_status == TxHistoryStatus::RejectedByApprover,
            r.timestamp == now,
    {
        HistoryTx { tx, signed_payload: None, tx_status: TxHistoryStatus::RejectedByApprover, timestamp: now }
    }

    /// A transaction its operator recalled at `now`.
    pub fn from_operator_recalled(tx: T, now: u64) -> (r: Self)
        ensures
            r.tx == tx,
            r.signed_payload is None,
            r.tx_status == TxHistoryStatus::RecalledByOperator,
            r.timestamp == now,
    {
        HistoryTx { tx, signed_payload: None, tx_status: TxHistoryStatus::RecalledByOperator, timestamp: now }
    }

    /// How the transaction settled, in words.
    pub fn message(&self) -> (r: String)
        ensures
            r@ == history_message(self.tx_status),
    {
        match &self.tx_status {
            TxHistoryStatus::OnChain(tx_hash) => {
                let mut s = String::from_str("tx hash: ");
                let q = debug_string(tx_hash.as_str());
                s.append(q.as_str());
                proof {
                    reveal_strlit("tx hash: ");
                }
                s
            },
            TxHistoryStatus::RejectedByNetwork(msg) => {
                let mut s = String::from_str("error message: ");
                let q = debug_string(msg.as_str());
                s.append(q.as_str());
                proof {
                    reveal_strlit("error message: ");
                }
                s
            },
            TxHistoryStatus::RejectedByApprover => String::from_str("rejected by approver"),
            TxHistoryStatus::Cached => String::from_str("network error or unknown error"),
            TxHistoryStatus::RecalledByOperator => String::from_str("recalled by operator"),
        }
    }

    pub fn tx(&self) -> (r: &T)
        ensures
            *r == self.tx,
    {
        &self.tx
    }

    pub fn tx_status(&self) -> (r: &TxHistoryStatus)
        ensures
            *r == self.tx_status,
    {
        &self.tx_status
    }

    pub fn timestamp(&self) -> (r: u64)
        ensures
            r == self.timestamp,
    {
        self.timestamp
    }
}

} // verus!
