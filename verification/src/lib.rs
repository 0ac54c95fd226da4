//! A verified model of an NFT-collateralised lending contract suite:
//! a price oracle, a signing relay that forwards ERC-721 transfers to the
//! EVM, and the collateral contract that keeps loan limits, open loans and
//! deposited NFTs.
//!
//! Everything that talks to the chain (the caller, the block number, the
//! cross-contract and cross-VM calls, storage writes and events) is done by
//! the host; this crate takes what the host observed as plain values and
//! returns the next state, the answer, or the call to make.
use vstd::prelude::*;

pub mod table;
pub mod encoding;
pub mod oracle;
pub mod sign_transfer;
pub mod collateral;

verus! {

/// A 32-byte account of the contracts' chain.
pub type AccountId = [u8; 32];

/// A block number of the contracts' chain.
pub type BlockNumber = u32;

/// An amount of a fungible asset.
pub type Balance = u128;

/// The 20-byte address of a contract on the EVM side of the chain.
pub type EvmContractAddress = [u8; 20];

} // verus!
