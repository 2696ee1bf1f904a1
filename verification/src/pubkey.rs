//! Account addresses as plain bytes, and their text (base58) form.
use vstd::prelude::*;

verus! {

/// A 32-byte account address, held as its raw bytes.
#[derive(Clone, Copy, Debug)]
pub struct Pubkey {
    pub bytes: [u8; 32],
}

impl View for Pubkey {
    type V = Seq<u8>;

    open spec fn view(&self) -> Seq<u8> {
        self.bytes@
    }
}

impl PartialEq for Pubkey {
    fn eq(&self, other: &Pubkey) -> (r: bool) {
        let mut i: usize = 0;
        while i < 32
            invariant
                i <= 32,
                forall|j: int| 0 <= j < i ==> self.bytes@[j] == other.bytes@[j],
            decreases 32 - i,
        {
            if self.bytes[i] != other.bytes[i] {
                return false;
            }
            i = i + 1;
        }
        assert(self.bytes@ =~= other.bytes@);
        true
    }
}

impl vstd::std_specs::cmp::PartialEqSpecImpl for Pubkey {
    open spec fn obeys_eq_spec() -> bool {
        true
    }

    open spec fn eq_spec(&self, other: &Pubkey) -> bool {
        self.bytes@ == other.bytes@
    }
}

impl Pubkey {
    /// The address with the given bytes.
    pub fn new_from_array(bytes: [u8; 32]) -> (k: Pubkey)
        ensures
            k@ == bytes@,
    {
        Pubkey { bytes }
    }

    /// The address's bytes.
    pub fn to_bytes(&self) -> (bytes: [u8; 32])
        ensures
            bytes@ == self@,
    {
        self.bytes
    }
}

/// The bytes of the address that a base58 text stands for, as the Solana
/// SDK's `Pubkey::from_str` decodes it; `None` where it refuses the text.
pub uninterp spec fn base58_address(text: Seq<char>) -> Option<Seq<u8>>;

/// Calls the Solana SDK's `Pubkey::from_str` (base58 decoding of an address),
/// reached through `anchor_lang::prelude::Pubkey`. Claimed: the result is the
/// decoding that `base58_address` names, a function of the text alone.
#[verifier::external_body]
pub(crate) fn parse_address(text: &str) -> (r: Option<Pubkey>)
    ensures
        match r {
            Some(k) => base58_address(text@) == Some(k@),
            None => base58_address(text@) is None,
        },
{
    match text.parse::<anchor_lang::prelude::Pubkey>() {
        Ok(k) => Some(Pubkey { bytes: k.to_bytes() }),
        Err(_) => None,
    }
}

} // verus!
