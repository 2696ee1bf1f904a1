//! The errors with which the program refuses a request.
use vstd::prelude::*;

verus! {

/// Why a request was refused.
#[derive(Clone, Copy, Debug, PartialEq, Eq, Structural)]
pub enum CustomError {
    /// The NFT's metadata is missing, unreadable, or not verified by the program.
    InvalidAccount,
    /// The NFT to unstake is not among the user's staked NFTs.
    NotStaked,
}

} // verus!
