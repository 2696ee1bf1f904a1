//! NFT metadata: which NFTs may be staked (those whose metadata lists the
//! program as a verified creator), and the metadata of the NFTs the program
//! mints.
use vstd::prelude::*;

use crate::error::CustomError;
use crate::pubkey::{parse_address, Pubkey};

verus! {

/// The address that the minted NFTs name as their second, paid creator.
pub const CREATOR: &'static str = "58V6myLoy5EVJA3U2wPdRDMUXpkwg8Vfw5b6fHqi2mEj";

/// A creator listed in an NFT's metadata.
#[derive(Clone, Copy, Debug)]
pub struct Creator {
    pub address: Pubkey,
    pub verified: bool,
    pub share: u8,
}

impl View for Creator {
    type V = (Seq<u8>, bool, u8);

    open spec fn view(&self) -> (Seq<u8>, bool, u8) {
        (self.address@, self.verified, self.share)
    }
}

/// The creators of a list, as plain values.
pub open spec fn creators_view(creators: Seq<Creator>) -> Seq<(Seq<u8>, bool, u8)> {
    creators.map_values(|c: Creator| c@)
}

/// What reading an NFT's metadata gave: `None` where the data is not
/// metadata, else the creator list, which the metadata may leave out.
pub open spec fn read_view(read: Option<Option<Vec<Creator>>>) -> Option<
    Option<Seq<(Seq<u8>, bool, u8)>>,
> {
    match read {
        Some(Some(cs)) => Some(Some(creators_view(cs@))),
        Some(None) => Some(None),
        None => None,
    }
}

/// The creator list that the Metaplex token metadata crate reads from an
/// account's data (`Metadata::from_bytes`): `None` where it does not parse,
/// `Some(None)` where the metadata lists no creators.
pub uninterp spec fn metadata_creators(data: Seq<u8>) -> Option<
    Option<Seq<(Seq<u8>, bool, u8)>>,
>;

/// Calls `mpl_token_metadata::accounts::Metadata::from_bytes` (Borsh
/// decoding of a metadata account's data, the same decoding that its
/// `TryFrom<&AccountInfo>` applies to the account's data) and keeps the
/// creator list. Claimed: the result is what `metadata_creators` names for
/// these bytes.
#[verifier::external_body]
pub(crate) fn read_metadata_creators(data: &[u8]) -> (r: Option<Option<Vec<Creator>>>)
    ensures
        read_view(r) == metadata_creators(data@),
{
    match anchor_spl::metadata::mpl_token_metadata::accounts::Metadata::from_bytes(data) {
        Ok(m) => Some(m.creators.map(|cs| cs.into_iter().map(|c| Creator {
            address: Pubkey { bytes: c.address.to_bytes() },
            verified: c.verified,
            share: c.share,
        }).collect())),
        Err(_) => None,
    }
}

/// Some creator in the list is `authority`, and verified.
pub open spec fn verified_by(creators: Seq<(Seq<u8>, bool, u8)>, authority: Seq<u8>) -> bool {
    exists|i: int| 0 <= i < creators.len() && #[trigger] creators[i].1 && creators[i].0 == authority
}

/// Whether an NFT with this metadata may be staked: only where the metadata
/// was read, lists its creators, and one of them is the program's authority,
/// verified.
pub open spec fn collection_verdict(
    read: Option<Option<Seq<(Seq<u8>, bool, u8)>>>,
    authority: Seq<u8>,
) -> Result<(), CustomError> {
    match read {
        Some(Some(creators)) => if verified_by(creators, authority) {
            Ok(())
        } else {
            Err(CustomError::InvalidAccount)
        },
        _ => Err(CustomError::InvalidAccount),
    }
}

/// Decides, from what was read of an NFT's metadata, whether the NFT may be
/// staked: it must list `authority` as a verified creator.
pub fn verify_creators(read: &Option<Option<Vec<Creator>>>, authority: &Pubkey) -> (r: Result<(), CustomError>)
    ensures
        r == collection_verdict(read_view(*read), authority@),
{
    let creators = match read {
        Some(Some(creators)) => creators,
        _ => return Err(CustomError::InvalidAccount),
    };
    assert(*read == Some(Some(*creators)));
    let ghost cv = creators_view(creators@);
    let n = creators.len();
    let mut i: usize = 0;
    while i < n
        invariant
            n == creators@.len(),
            cv == creators_view(creators@),
            *read == Some(Some(*creators)),
            i <= n,
            forall|j: int| 0 <= j < i ==> !(#[trigger] cv[j].1 && cv[j].0 == authority@),
        decreases n - i,
    {
        if creators[i].verified && creators[i].address == *authority {
            assert(cv[i as int].1 && cv[i as int].0 == authority@);
            assert(verified_by(cv, authority@));
            assert(read_view(*read) == Some(Some(cv)));
            return Ok(());
        }
        i = i + 1;
    }
    Err(CustomError::InvalidAccount)
}

/// The collection an NFT belongs to, as its metadata records it.
#[derive(Clone, Copy, Debug)]
pub struct Collection {
    pub verified: bool,
    pub key: Pubkey,
}

/// How an NFT with uses is used up.
#[derive(Clone, Copy, Debug, PartialEq, Eq, Structural)]
pub enum UseMethod {
    Burn,
    Multiple,
    Single,
}

/// The uses an NFT's metadata grants.
#[derive(Clone, Copy, Debug)]
pub struct Uses {
    pub use_method: UseMethod,
    pub remaining: u64,
    pub total: u64,
}

/// What the metadata of a collection's parent NFT records of the collection.
#[derive(Clone, Copy, Debug, PartialEq, Eq, Structural)]
pub enum CollectionDetails {
    V1 { size: u64 },
}

/// The metadata and edition of an NFT that the program mints.
#[derive(Debug)]
pub struct NftMetadata {
    pub name: String,
    pub symbol: String,
    pub uri: String,
    pub seller_fee_basis_points: u16,
    pub creators: Vec<Creator>,
    /// Whether the metadata can be changed later.
    pub is_mutable: bool,
    /// Whether the update authority signs the metadata's creation.
    pub update_authority_is_signer: bool,
    /// How many tokens of the NFT are minted.
    pub amount: u64,
    /// The cap on prints of the master edition (`None`: no cap).
    pub max_supply: Option<u64>,
    /// The collection the NFT belongs to.
    pub collection: Option<Collection>,
    /// The uses the NFT grants.
    pub uses: Option<Uses>,
    /// What the NFT records as the parent of a collection.
    pub collection_details: Option<CollectionDetails>,
}

/// `m` is the metadata of a Spore NFT minted under `authority`, naming
/// `creator` as its paid creator.
pub open spec fn is_spore_metadata(m: NftMetadata, authority: Seq<u8>, creator: Seq<u8>) -> bool {
    &&& m.name@ == "Spore"@
    &&& m.symbol@ == "SPORE"@
    &&& m.uri@ == "YOLO"@
    &&& m.seller_fee_basis_points == 100
    &&& creators_view(m.creators@) == seq![(authority, true, 0u8), (creator, false, 100u8)]
    &&& !m.is_mutable
    &&& m.update_authority_is_signer
    &&& m.amount == 1
    &&& m.max_supply is None
    &&& m.collection is None
    &&& m.uses is None
    &&& m.collection_details is None
}

/// The metadata of a Spore NFT: minted once, immutable, listing `authority`
/// as verified creator with no share and `creator` as unverified creator
/// with the whole share; in no collection, with no uses, with no cap on
/// prints.
pub fn spore_metadata(authority: Pubkey, creator: Pubkey) -> (m: NftMetadata)
    ensures
        is_spore_metadata(m, authority@, creator@),
{
    let creators = vec![
        Creator { address: authority, verified: true, share: 0 },
        Creator { address: creator, verified: false, share: 100 },
    ];
    let m = NftMetadata {
        name: "Spore".to_owned(),
        symbol: "SPORE".to_owned(),
        uri: "YOLO".to_owned(),
        seller_fee_basis_points: 100,
        creators,
        is_mutable: false,
        update_authority_is_signer: true,
        amount: 1,
        max_supply: None,
        collection: None,
        uses: None,
        collection_details: None,
    };
    assert(creators_view(m.creators@) =~= seq![(authority@, true, 0u8), (creator@, false, 100u8)]);
    m
}

/// The metadata of the NFT that `mint_nft` creates, with `CREATOR` as the
/// paid creator; `None` where `CREATOR` is not a valid address.
pub fn mint_nft(authority: &Pubkey) -> (r: Option<NftMetadata>)
    ensures
        match crate::pubkey::base58_address(CREATOR@) {
            Some(c) => r matches Some(m) && is_spore_metadata(m, authority@, c),
            None => r is None,
        },
{
    match parse_address(CREATOR) {
        Some(creator) => Some(spore_metadata(*authority, creator)),
        None => None,
    }
}

} // verus!
