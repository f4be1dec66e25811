use vstd::prelude::*;

use std::str::FromStr;

verus! {

/// A 32-byte ledger address (an account, a mint or a program).
#[derive(Clone, Copy, Debug)]
pub struct Address {
    pub bytes: [u8; 32],
}

impl View for Address {
    type V = Seq<u8>;

    open spec fn view(&self) -> Seq<u8> {
        self.bytes@
    }
}

/// What the ledger's textual (base58) form of an address decodes to: the
/// 32 bytes of the address, or nothing where the text is not such a form.
pub uninterp spec fn address_from_text(text: Seq<char>) -> Option<Seq<u8>>;

/// Relies on `solana_sdk::pubkey::Pubkey::from_str`: it yields an address exactly
/// when the text is a valid base58 form of 32 bytes, and depends on the text alone.
#[verifier::external_body]
pub(crate) fn parse_address(text: &str) -> (r: Option<Address>)
    ensures
        match r {
            Some(a) => address_from_text(text@) == Some(a@),
            None => address_from_text(text@) is None,
        },
{
    solana_sdk::pubkey::Pubkey::from_str(text).ok().map(|p| Address { bytes: p.to_bytes() })
}

/// The associated token account of `owner` for `mint` under `token_program`: a
/// program-derived address, determined by the three addresses alone.
pub uninterp spec fn associated_token_address_of(
    owner: Seq<u8>,
    mint: Seq<u8>,
    token_program: Seq<u8>,
) -> Seq<u8>;

/// Relies on `spl_associated_token_account::get_associated_token_address_with_program_id`:
/// a deterministic derivation from the owner, the mint and the token program. (It
/// panics only if no bump seed yields an address off the curve, which its
/// documentation calls statistically improbable.)
#[verifier::external_body]
pub(crate) fn associated_token_address(
    owner: &Address,
    mint: &Address,
    token_program: &Address,
) -> (r: Address)
    ensures
        r@ == associated_token_address_of(owner@, mint@, token_program@),
{
    let owner = solana_sdk::pubkey::Pubkey::new_from_array(owner.bytes);
    let mint = solana_sdk::pubkey::Pubkey::new_from_array(mint.bytes);
    let program = solana_sdk::pubkey::Pubkey::new_from_array(token_program.bytes);
    let ata = spl_associated_token_account::get_associated_token_address_with_program_id(
        &owner,
        &mint,
        &program,
    );
    Address { bytes: ata.to_bytes() }
}

/// The system program.
pub const SYSTEM_PROGRAM_ID: [u8; 32] = [
    0, 0, 0, 0, 0, 0, 0, 0, 0, 0, 0, 0, 0, 0, 0, 0, 0, 0, 0, 0, 0, 0, 0, 0, 0, 0, 0, 0, 0, 0, 0, 0,
];

/// The token program (`TokenkegQfeZyiNwAJbNbGKPFXCWuBvf9Ss623VQ5DA`).
pub const TOKEN_PROGRAM_ID: [u8; 32] = [
    6, 221, 246, 225, 215, 101, 161, 147, 217, 203, 225, 70, 206, 235, 121, 172, 28, 180, 133, 237,
    95, 91, 55, 145, 58, 140, 245, 133, 126, 255, 0, 169,
];

/// The associated token account program (`ATokenGPvbdGVxr1b2hvZbsiqW5xWH25efTNsLJA8knL`).
pub const ASSOCIATED_TOKEN_PROGRAM_ID: [u8; 32] = [
    140, 151, 37, 143, 78, 36, 137, 241, 187, 61, 16, 41, 20, 142, 13, 131, 11, 90, 19, 153, 218,
    255, 16, 132, 4, 142, 123, 216, 219, 233, 248, 89,
];

impl Address {
    pub fn new(bytes: [u8; 32]) -> (r: Address)
        ensures
            r.bytes == bytes,
    {
        Address { bytes }
    }

    /// Whether two addresses are the same bytes.
    pub fn same_as(&self, other: &Address) -> (r: bool)
        ensures
            r == (self@ == other@),
    {
        let mut i: usize = 0;
        while i < 32
            invariant
                0 <= i <= 32,
                forall|j: int| 0 <= j < i ==> self.bytes@[j] == other.bytes@[j],
            decreases 32 - i,
        {
            if self.bytes[i] != other.bytes[i] {
                return false;
            }
            i = i + 1;
        }
        proof {
            assert(self@ =~= other@);
        }
        true
    }
}

impl PartialEq for Address {
    fn eq(&self, other: &Address) -> (r: bool) {
        self.same_as(other)
    }
}

impl vstd::std_specs::cmp::PartialEqSpecImpl for Address {
    open spec fn obeys_eq_spec() -> bool {
        true
    }

    open spec fn eq_spec(&self, other: &Address) -> bool {
        self@ == other@
    }
}

impl Eq for Address {
}

} // verus!
