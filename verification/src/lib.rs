//! Verified core of an NFT staking program: the per-user stake record, the
//! rewards it earns, the collection check that admits an NFT, and the data of
//! the NFTs the program mints.
pub mod error;
pub mod pubkey;

pub use error::CustomError;
pub use pubkey::Pubkey;
pub mod stake_info;

pub use stake_info::StakeInfo;
pub mod metadata;

pub use metadata::{Creator, NftMetadata};
pub mod staking;

pub use staking::{claim, initialize_user, stake, unstake};
pub mod laws;
