//! JSON-RPC with EVM nodes: requests, how an answer is classified, and the
//! parameters of gas estimation.
use vstd::prelude::*;
use crate::abi::{abi_encode_static, encode_transfer, find_function, short_signature_of, takes_address_and_number, AbiToken, ContractAbi};
use crate::asset::{AssetType, CkAmount};
use crate::error::GatewayError;
use crate::hex::{parse_quantity, parse_quantity_str};
use crate::model::clone_str;

verus! {

/// A successful answer of a node.
pub struct InfuraJsonRpcSuccessResponse {
    jsonrpc: String,
    id: u32,
    result: String,
}

impl InfuraJsonRpcSuccessResponse {
    pub closed spec fn result_spec(&self) -> Seq<char> {
        self.result@
    }

    pub fn new(jsonrpc: String, id: u32, result: String) -> (r: Self)
        ensures
            r.result_spec() == result@,
    {
        InfuraJsonRpcSuccessResponse { jsonrpc, id, result }
    }

    /// What the node answered.
    pub fn result(&self) -> (r: String)
        ensures
            r@ == self.result_spec(),
    {
        clone_str(&self.result)
    }
}

/// The reason a node gives for refusing a request.
pub struct RpcErrorInfo {
    code: i32,
    message: String,
}

impl RpcErrorInfo {
    pub closed spec fn message_spec(&self) -> Seq<char> {
        self.message@
    }

    pub fn new(code: i32, message: String) -> (r: Self)
        ensures
            r.message_spec() == message@,
    {
        RpcErrorInfo { code, message }
    }
}

/// A node's refusal.
pub struct InfuraJsonRpcErrorResponse {
    jsonrpc: String,
    id: u32,
    error: RpcErrorInfo,
}

impl InfuraJsonRpcErrorResponse {
    pub closed spec fn message_spec(&self) -> Seq<char> {
        self.error.message_spec()
    }

    pub fn new(jsonrpc: String, id: u32, error: RpcErrorInfo) -> (r: Self)
        ensures
            r.message_spec() == error.message_spec(),
    {
        InfuraJsonRpcErrorResponse { jsonrpc, id, error }
    }

    pub fn message(&self) -> (r: String)
        ensures
            r@ == self.message_spec(),
    {
        clone_str(&self.error.message)
    }
}

/// Why a request to a node failed.
pub enum InfuraRpcError {
    /// The node answered with this HTTP status instead of 200.
    ConnectionFailure(u16),
    /// The node refused the request, with this message.
    RejectedByNetwork(String),
    /// The answer was neither a result nor a refusal; its body.
    Unknown(String),
}

/// How the answer of a node is read: a status other than 200 is a
/// connection failure; otherwise the body is a result, else a refusal,
/// else unknown. `success` and `refusal` are the body read as each form,
/// when it has that form.
pub fn classify_response(
    status: u16,
    success: Option<InfuraJsonRpcSuccessResponse>,
    refusal: Option<InfuraJsonRpcErrorResponse>,
    body: String,
) -> (r: Result<InfuraJsonRpcSuccessResponse, InfuraRpcError>)
    ensures
        status != 200 ==> (r matches Err(InfuraRpcError::ConnectionFailure(s)) && s == status),
        status == 200 && success is Some ==> r == Ok::<InfuraJsonRpcSuccessResponse, InfuraRpcError>(success->0),
        status == 200 && success is None && refusal is Some ==> (r matches Err(
            InfuraRpcError::RejectedByNetwork(m),
        ) && m@ == refusal->0.message_spec()),
        status == 200 && success is None && refusal is None ==> (r matches Err(InfuraRpcError::Unknown(b))
            && b == body),
{
    if status != 200 {
        return Err(InfuraRpcError::ConnectionFailure(status));
    }
    match success {
        Some(resp) => Ok(resp),
        None => match refusal {
            Some(err) => Err(InfuraRpcError::RejectedByNetwork(err.message())),
            None => Err(InfuraRpcError::Unknown(body)),
        },
    }
}

/// The quantity in a node's answer (`0x` and hex digits).
pub fn quantity_of(resp: &InfuraJsonRpcSuccessResponse) -> (r: Result<u128, GatewayError>)
    ensures
        r == parse_quantity(resp.result_spec()),
{
    let s = resp.result();
    parse_quantity_str(s.as_str())
}

/// What became of a submitted transaction.
pub enum TxSubmissionResult {
    /// The network took it; its hash.
    Accepted(String),
    /// The network refused it; its message.
    Rejected(String),
}

/// The outcome of `eth_sendRawTransaction`: a result is the hash of the
/// accepted transaction, a refusal by the network a rejection; other
/// failures stay failures.
pub fn submission_outcome(answer: Result<InfuraJsonRpcSuccessResponse, InfuraRpcError>) -> (r: Result<TxSubmissionResult, InfuraRpcError>)
    ensures
        answer matches Ok(resp) ==> (r matches Ok(TxSubmissionResult::Accepted(h)) && h@ == resp.result_spec()),
        answer matches Err(InfuraRpcError::RejectedByNetwork(m)) ==> (r matches Ok(TxSubmissionResult::Rejected(m2)) && m2 == m),
        answer matches Err(InfuraRpcError::ConnectionFailure(s)) ==> (r matches Err(InfuraRpcError::ConnectionFailure(s2)) && s2 == s),
        answer matches Err(InfuraRpcError::Unknown(b)) ==> (r matches Err(InfuraRpcError::Unknown(b2)) && b2 == b),
{
    match answer {
        Ok(resp) => Ok(TxSubmissionResult::Accepted(resp.result())),
        Err(InfuraRpcError::RejectedByNetwork(msg)) => Ok(TxSubmissionResult::Rejected(msg)),
        Err(e) => Err(e),
    }
}

/// What can be sent as a parameter of a request.
pub trait RpcParams {
}

impl RpcParams for String {
}

/// A JSON-RPC request to a node.
pub struct InfuraRpcRequest<T: RpcParams> {
    pub jsonrpc: String,
    pub method: String,
    pub params: Vec<T>,
    pub id: u32,
}

impl<T: RpcParams> InfuraRpcRequest<T> {
    /// A request for `method` with `params`, in JSON-RPC 2.0, with id 1.
    pub fn new(method: String, params: Vec<T>) -> (r: Self)
        ensures
            r.jsonrpc@ == "2.0"@,
            r.method == method,
            r.params == params,
            r.id == 1,
    {
        InfuraRpcRequest { jsonrpc: String::from_str("2.0"), method, params, id: 1 }
    }
}

/// How the balance of an asset is read from an EVM node: a token's by a
/// call of its contract (`balanceOf`), a native coin's by
/// `eth_getBalance`.
#[derive(Clone, Copy, Debug, PartialEq, Eq, Structural)]
pub enum BalanceQuery {
    TokenCall,
    NativeBalance,
}

/// How the balance of `asset_type` is read; assets of no EVM chain are not
/// read from an EVM node.
pub fn balance_query(asset_type: AssetType) -> (r: Result<BalanceQuery, GatewayError>)
    ensures
        !asset_type.evm_compatible() ==> r == Err::<BalanceQuery, GatewayError>(GatewayError::UnsupportedAssetType),
        asset_type.erc20_compatible() ==> r == Ok::<BalanceQuery, GatewayError>(BalanceQuery::TokenCall),
        asset_type.evm_native() ==> r == Ok::<BalanceQuery, GatewayError>(BalanceQuery::NativeBalance),
{
    if !asset_type.is_evm_compatible() {
        Err(GatewayError::UnsupportedAssetType)
    } else if asset_type.is_erc20_compatible() {
        Ok(BalanceQuery::TokenCall)
    } else if asset_type.is_evm_native() {
        Ok(BalanceQuery::NativeBalance)
    } else {
        Err(GatewayError::UnsupportedAssetType)
    }
}

/// The parameters of `eth_estimateGas`.
pub struct EstimateGasParams {
    pub from: [u8; 20],
    pub to: [u8; 20],
    pub value: u128,
    pub gas: u128,
    pub gas_price: u128,
    pub data: Vec<u8>,
}

impl RpcParams for EstimateGasParams {
}

/// The gas limit asked for in estimates, high enough that the node does
/// not refuse them for want of gas.
pub const ESTIMATION_GAS: u128 = 100000;

/// The parameters to estimate the gas of sending `amount` from `from` to
/// `to`, with the token ABI `erc20_abi`, which must be configured: a token
/// transfer is a call of the token contract at `contract_address` (the
/// asset's contract on the network) with the call data of the ABI's
/// `transfer` (see `encode_transfer`); a native transfer sends the value
/// with no data.
pub fn construct_gas_estimation_params(
    from: [u8; 20],
    to: [u8; 20],
    amount: CkAmount,
    erc20_abi: &Option<ContractAbi>,
    contract_address: Option<[u8; 20]>,
) -> (r: Result<EstimateGasParams, GatewayError>)
    ensures
        erc20_abi is None ==> r == Err::<EstimateGasParams, GatewayError>(GatewayError::MissingContractAbi),
        erc20_abi is Some && !amount.asset_type.evm_compatible() ==> r == Err::<EstimateGasParams, GatewayError>(
            GatewayError::UnsupportedAssetType,
        ),
        erc20_abi is Some && amount.asset_type.erc20_compatible() && contract_address is None ==> r == Err::<
            EstimateGasParams,
            GatewayError,
        >(GatewayError::MissingContractAddress),
        erc20_abi matches Some(abi) ==> (amount.asset_type.erc20_compatible() && contract_address is Some ==> {
            match find_function(abi.functions@, "transfer"@) {
                None => r == Err::<EstimateGasParams, GatewayError>(GatewayError::MissingAbiFunction),
                Some(f) => if takes_address_and_number(f.inputs@) {
                    r matches Ok(p) && {
                        &&& p.from == from
                        &&& p.to == contract_address->0
                        &&& p.value == 0
                        &&& p.gas == ESTIMATION_GAS
                        &&& p.gas_price == 0
                        &&& p.data@ == short_signature_of(f.name@, f.inputs@) + abi_encode_static(
                            seq![AbiToken::Address(to), AbiToken::Uint(amount.value)],
                        )
                    }
                } else {
                    r == Err::<EstimateGasParams, GatewayError>(GatewayError::InvalidAbiInput)
                },
            }
        }),
        erc20_abi is Some && amount.asset_type.evm_native() ==> (r matches Ok(p) && {
            &&& p.from == from
            &&& p.to == to
            &&& p.value == amount.value
            &&& p.gas == ESTIMATION_GAS
            &&& p.gas_price == 0
            &&& p.data@.len() == 0
        }),
{
    let abi = match erc20_abi {
        Some(a) => a,
        None => {
            return Err(GatewayError::MissingContractAbi);
        },
    };
    let asset_type = amount.asset_type();
    let value = amount.value();
    if !asset_type.is_evm_compatible() {
        return Err(GatewayError::UnsupportedAssetType);
    }
    if asset_type.is_erc20_compatible() {
        let contract = match contract_address {
            Some(c) => c,
            None => {
                return Err(GatewayError::MissingContractAddress);
            },
        };
        let data = match encode_transfer(abi, to, value) {
            Ok(d) => d,
            Err(e) => {
                return Err(e);
            },
        };
        Ok(EstimateGasParams { from, to: contract, value: 0, gas: ESTIMATION_GAS, gas_price: 0, data })
    } else if asset_type.is_evm_native() {
        Ok(EstimateGasParams { from, to, value, gas: ESTIMATION_GAS, gas_price: 0, data: Vec::new() })
    } else {
        Err(GatewayError::UnsupportedAssetType)
    }
}

} // verus!
