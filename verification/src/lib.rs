//! The state machine of a token program on a ledger of accounts: custodial
//! minting, burning and transfer, staking with a fixed lock, and vesting
//! tickets that are redeemed for principal and yield.
//!
//! The library decides and the caller acts. Every operation takes the accounts
//! as plain values, together with the time, and returns either the whole of
//! what is to be done or the one reason for which nothing is done. It reads no
//! clock, moves no balance and writes no account.
//!
//! - `address`: addresses derived from seeds, and their verification.
//! - `policy`: the seeds, identities and limits of a deployment.
//! - `storage`: creation, growth and shrinkage of records, and their funding.
//! - `layout`: little-endian fields; `ticket_layout`: the bytes of a ledger.
//! - `custody`: mint, burn and transfer through the custody service.
//! - `staking`: the staker record, its reward, stake and unstake.
//! - `tickets`: the ticket ledger, purchase and redemption; `ticketing`: the
//!   two as operations on accounts.
//! - `treasury`: the treasury record, the mint and the treasury's custody
//!   account.
//! - `instruction`: the command surface and the dispatch.
//! - `error`: every reason for which an operation fails.

pub mod address;
pub mod custody;
pub mod error;
pub mod instruction;
pub mod layout;
pub mod policy;
pub mod staking;
pub mod storage;
pub mod ticket_layout;
pub mod ticketing;
pub mod tickets;
pub mod treasury;
