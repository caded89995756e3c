//! A gateway for meta-transactions signed with an EVM-style key: typed-data
//! hashing, public-key recovery, account binding, nonce sequencing, fee
//! admission and priority scoring, each with a verified contract.

pub mod hashing;
pub mod typed_data;
pub mod recovery;
pub mod identity;
pub mod nonce;
pub mod priority;
pub mod pallet;
