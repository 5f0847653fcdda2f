//! Verified core of a custodial wallet gateway.
pub mod table;
pub mod strs;
pub mod model;
pub mod error;
pub mod user_info;
pub mod wallet;
pub mod device_info;
pub mod user_registry;
pub mod device_registry;
pub mod byte_table;
pub mod storage;
pub mod records;
pub mod console;
pub mod export;
pub mod hex;
pub mod abi;
pub mod asset;
pub mod rpc;
pub mod etherscan;
pub mod nickname;
pub mod email;
pub mod credential;
pub mod tee;
pub mod state_manager;
pub mod console_api;
pub mod gas_price;
pub mod payment;
pub mod balance;
pub mod btc;
pub mod tx;
pub mod laws;
pub mod notify;
