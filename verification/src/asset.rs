//! Assets and networks the gateway follows.
use vstd::prelude::*;

verus! {

/// Main network or test network.
#[derive(Clone, Copy, Debug, PartialEq, Eq, Structural, Hash)]
pub enum NetworkType {
    Mainnet,
    Testnet,
}

/// A chain and which of its networks.
#[derive(Clone, Copy, Debug, PartialEq, Eq, Structural, Hash)]
pub enum CkNetwork {
    Eth(NetworkType),
    Btc(NetworkType),
    Bsc(NetworkType),
}

/// The assets a wallet can hold.
#[derive(Clone, Copy, Debug, PartialEq, Eq, Structural, Hash)]
pub enum AssetType {
    BTC,
    ETH,
    USDT,
    USDC,
    BNB,
}

impl AssetType {
    pub open spec fn evm_compatible(self) -> bool {
        self != AssetType::BTC
    }

    pub open spec fn erc20_compatible(self) -> bool {
        self == AssetType::USDT || self == AssetType::USDC
    }

    pub open spec fn evm_native(self) -> bool {
        self == AssetType::ETH || self == AssetType::BNB
    }

    /// Whether the asset lives on an EVM chain.
    pub fn is_evm_compatible(&self) -> (r: bool)
        ensures
            r == self.evm_compatible(),
    {
        match self {
            AssetType::BTC => false,
            _ => true,
        }
    }

    /// Whether the asset is a token contract on an EVM chain.
    pub fn is_erc20_compatible(&self) -> (r: bool)
        ensures
            r == self.erc20_compatible(),
    {
        match self {
            AssetType::USDT => true,
            AssetType::USDC => true,
            _ => false,
        }
    }

    /// Whether the asset is the native coin of an EVM chain.
    pub fn is_evm_native(&self) -> (r: bool)
        ensures
            r == self.evm_native(),
    {
        match self {
            AssetType::ETH => true,
            AssetType::BNB => true,
            _ => false,
        }
    }
}

/// An amount of an asset, in the asset's smallest unit.
#[derive(Clone, Copy, Debug, PartialEq, Eq, Structural)]
pub struct CkAmount {
    pub value: u128,
    pub asset_type: AssetType,
}

impl CkAmount {
    pub fn new(value: u128, asset_type: AssetType) -> (r: Self)
        ensures
            r.value == value,
            r.asset_type == asset_type,
    {
        CkAmount { value, asset_type }
    }

    pub fn value(&self) -> (r: u128)
        ensures
            r == self.value,
    {
        self.value
    }

    pub fn asset_type(&self) -> (r: AssetType)
        ensures
            r == self.asset_type,
    {
        self.asset_type
    }
}

} // verus!
