use vstd::prelude::*;

use crate::address::{associated_token_address, associated_token_address_of, Address};
use crate::balance::le_value;

verus! {

/// Errors raised by the distribution program's own checks.
#[derive(Clone, Copy, Debug, PartialEq, Eq, Structural)]
pub enum DistributorError {
    InvalidParameters,
    ThresholdNotMet,
    MissingRemainingAccounts,
    InvalidAssociatedTokenAccount,
}

/// The balance the vault must hold before a round may pay out.
pub open spec fn threshold_of(share_size: u64, number_of_shares: u64) -> int {
    share_size as int * number_of_shares as int
}

/// The parameters a distribution can be set up with: a positive share, at
/// least two shares, and a threshold that fits in 64 bits.
pub open spec fn valid_parameters(share_size: u64, number_of_shares: u64) -> bool {
    &&& share_size > 0
    &&& number_of_shares >= 2
    &&& threshold_of(share_size, number_of_shares) <= u64::MAX
}

/// The state of one distribution, as the ledger program keeps it.
#[derive(Clone, Copy, Debug)]
pub struct DistributorState {
    pub vault: Address,
    pub mint: Address,
    pub marker_mint: Address,
    pub distributor_authority: Address,
    pub share_size: u64,
    pub number_of_shares: u64,
    pub distributor_state_bump: u8,
    pub vault_bump: u8,
}

impl DistributorState {
    pub open spec fn wf(&self) -> bool {
        valid_parameters(self.share_size, self.number_of_shares)
    }

    pub open spec fn spec_threshold(&self) -> int {
        threshold_of(self.share_size, self.number_of_shares)
    }

    /// `share_size * number_of_shares`.
    pub fn threshold(&self) -> (r: u64)
        requires
            self.wf(),
        ensures
            r == self.spec_threshold(),
    {
        self.share_size * self.number_of_shares
    }

    /// Re-checks the parameters of a state read back from the ledger.
    pub fn validate(&self) -> (r: Result<(), DistributorError>)
        ensures
            r is Ok <==> self.wf(),
            r is Err ==> r == Err::<(), DistributorError>(DistributorError::InvalidParameters),
    {
        check_parameters(self.share_size, self.number_of_shares)
    }
}

/// Accepts exactly the parameters a distribution can be set up with.
pub fn check_parameters(share_size: u64, number_of_shares: u64) -> (r: Result<
    (),
    DistributorError,
>)
    ensures
        r is Ok <==> valid_parameters(share_size, number_of_shares),
        r is Err ==> r == Err::<(), DistributorError>(DistributorError::InvalidParameters),
{
    if share_size == 0 || number_of_shares <= 1 {
        return Err(DistributorError::InvalidParameters);
    }
    match share_size.checked_mul(number_of_shares) {
        Some(_) => Ok(()),
        None => Err(DistributorError::InvalidParameters),
    }
}

/// Sets up the state of a new distribution, or refuses its parameters.
pub fn initialize(
    vault: Address,
    mint: Address,
    marker_mint: Address,
    distributor_authority: Address,
    share_size: u64,
    number_of_shares: u64,
    distributor_state_bump: u8,
    vault_bump: u8,
) -> (r: Result<DistributorState, DistributorError>)
    ensures
        r is Ok <==> valid_parameters(share_size, number_of_shares),
        r is Err ==> r == Err::<DistributorState, DistributorError>(
            DistributorError::InvalidParameters,
        ),
        r matches Ok(s) ==> {
            &&& s.wf()
            &&& s.vault == vault
            &&& s.mint == mint
            &&& s.marker_mint == marker_mint
            &&& s.distributor_authority == distributor_authority
            &&& s.share_size == share_size
            &&& s.number_of_shares == number_of_shares
            &&& s.distributor_state_bump == distributor_state_bump
            &&& s.vault_bump == vault_bump
        },
{
    match check_parameters(share_size, number_of_shares) {
        Ok(()) => Ok(
            DistributorState {
                vault,
                mint,
                marker_mint,
                distributor_authority,
                share_size,
                number_of_shares,
                distributor_state_bump,
                vault_bump,
            },
        ),
        Err(e) => Err(e),
    }
}

/// The tag that opens the account data of a distribution state.
pub const STATE_DISCRIMINATOR: [u8; 8] = [228, 86, 189, 137, 118, 24, 15, 127];

/// Length of a distribution state's account data: the tag, four addresses, two
/// 64-bit integers and two bump bytes.
pub const STATE_ACCOUNT_LEN: usize = 154;

/// Whether `state` is what the account data `data` holds: after the tag, the
/// vault, mint, marker mint and authority addresses, the share size and the
/// number of shares (little-endian), and the two bumps.
pub open spec fn state_encoded(data: Seq<u8>, state: DistributorState) -> bool {
    &&& state.vault@ == data.subrange(8, 40)
    &&& state.mint@ == data.subrange(40, 72)
    &&& state.marker_mint@ == data.subrange(72, 104)
    &&& state.distributor_authority@ == data.subrange(104, 136)
    &&& state.share_size as int == le_value(data.subrange(136, 144))
    &&& state.number_of_shares as int == le_value(data.subrange(144, 152))
    &&& state.distributor_state_bump == data[152]
    &&& state.vault_bump == data[153]
}

/// Relies on `u64::from_le_bytes`: the integer whose little-endian bytes these are.
#[verifier::external_body]
fn u64_from_le(bytes: [u8; 8]) -> (r: u64)
    ensures
        r as int == le_value(bytes@),
{
    u64::from_le_bytes(bytes)
}

/// The 32 bytes of `data` from `at` on, as an address.
fn address_at(data: &Vec<u8>, at: usize) -> (r: Address)
    requires
        at + 32 <= data@.len(),
    ensures
        r@ == data@.subrange(at as int, at + 32),
{
    let len = data.len();
    let mut bytes = [0u8; 32];
    let mut i: usize = 0;
    while i < 32
        invariant
            len == data@.len(),
            at + 32 <= len,
            i <= 32,
            forall|j: int| 0 <= j < i ==> bytes@[j] == data@[at + j],
        decreases 32 - i,
    {
        bytes[i] = data[at + i];
        i = i + 1;
    }
    let r = Address { bytes };
    assert(r@ =~= data@.subrange(at as int, at + 32));
    r
}

/// The little-endian 64-bit integer at `at` in `data`.
fn u64_at(data: &Vec<u8>, at: usize) -> (r: u64)
    requires
        at + 8 <= data@.len(),
    ensures
        r as int == le_value(data@.subrange(at as int, at + 8)),
{
    let len = data.len();
    assert(at + 8 <= len);
    let bytes = [
        data[at],
        data[at + 1],
        data[at + 2],
        data[at + 3],
        data[at + 4],
        data[at + 5],
        data[at + 6],
        data[at + 7],
    ];
    assert(bytes@ =~= data@.subrange(at as int, at + 8));
    u64_from_le(bytes)
}

impl DistributorState {
    /// Reads a distribution state from its account data; trailing bytes are
    /// ignored. Fails where the data is short or does not open with the tag.
    pub fn from_account_data(data: &Vec<u8>) -> (r: Option<DistributorState>)
        ensures
            r is Some <==> data@.len() >= STATE_ACCOUNT_LEN && data@.subrange(0, 8)
                == STATE_DISCRIMINATOR@,
            r matches Some(s) ==> state_encoded(data@, s),
    {
        if data.len() < STATE_ACCOUNT_LEN {
            return None;
        }
        let tag = STATE_DISCRIMINATOR;
        let mut i: usize = 0;
        while i < 8
            invariant
                data@.len() >= STATE_ACCOUNT_LEN,
                tag@ == STATE_DISCRIMINATOR@,
                i <= 8,
                forall|j: int| 0 <= j < i ==> data@[j] == tag@[j],
            decreases 8 - i,
        {
            if data[i] != tag[i] {
                assert(data@.subrange(0, 8)[i as int] != STATE_DISCRIMINATOR@[i as int]);
                return None;
            }
            i = i + 1;
        }
        assert(data@.subrange(0, 8) =~= STATE_DISCRIMINATOR@);
        Some(
            DistributorState {
                vault: address_at(data, 8),
                mint: address_at(data, 40),
                marker_mint: address_at(data, 72),
                distributor_authority: address_at(data, 104),
                share_size: u64_at(data, 136),
                number_of_shares: u64_at(data, 144),
                distributor_state_bump: data[152],
                vault_bump: data[153],
            },
        )
    }
}

/// What one round moves out of the vault: one share to each recipient token
/// account, and one share burned.
#[derive(Clone, Debug)]
pub struct Payouts {
    pub recipients: Vec<Address>,
    pub share_size: u64,
    pub burned: u64,
}

/// Whether the auxiliary accounts hold one (authority, token account) pair for
/// each share but the last.
pub open spec fn pair_count_matches(n_accounts: int, number_of_shares: u64) -> bool {
    n_accounts == 2 * (number_of_shares - 1)
}

/// Whether every pair's token account is the derived one given alongside.
pub open spec fn token_accounts_match(remaining: Seq<Address>, derived: Seq<Address>) -> bool {
    forall|k: int|
        0 <= k < derived.len() ==> #[trigger] remaining[2 * k + 1]@ == derived[k]@
}

/// The outcome of a distribution, given for each pair the token account derived
/// from its authority.
pub open spec fn distribute_outcome(
    state: DistributorState,
    vault_amount: u64,
    remaining: Seq<Address>,
    derived: Seq<Address>,
) -> Result<Seq<Address>, DistributorError> {
    if (vault_amount as int) < state.spec_threshold() {
        Err(DistributorError::ThresholdNotMet)
    } else if !pair_count_matches(remaining.len() as int, state.number_of_shares) {
        Err(DistributorError::MissingRemainingAccounts)
    } else if !token_accounts_match(remaining, derived) {
        Err(DistributorError::InvalidAssociatedTokenAccount)
    } else {
        Ok(Seq::new(derived.len(), |k: int| remaining[2 * k + 1]))
    }
}

/// The program's checks on one round, once each pair's token account has been
/// derived (`derived[k]` from the authority `remaining[2 * k]`).
pub fn distribute_with(
    state: &DistributorState,
    vault_amount: u64,
    remaining: &Vec<Address>,
    derived: &Vec<Address>,
) -> (r: Result<Payouts, DistributorError>)
    requires
        state.wf(),
        2 * derived.len() == remaining.len() || !pair_count_matches(
            remaining.len() as int,
            state.number_of_shares,
        ),
    ensures
        match (r, distribute_outcome(*state, vault_amount, remaining@, derived@)) {
            (Ok(p), Ok(s)) => p.recipients@ == s && p.share_size == state.share_size
                && p.burned == state.share_size,
            (Err(e), Err(f)) => e == f,
            _ => false,
        },
{
    if vault_amount < state.threshold() {
        return Err(DistributorError::ThresholdNotMet);
    }
    let n_accounts = remaining.len();
    if n_accounts % 2 != 0 || (n_accounts / 2) as u64 != state.number_of_shares - 1 {
        return Err(DistributorError::MissingRemainingAccounts);
    }
    let pairs = n_accounts / 2;
    assert(pair_count_matches(remaining@.len() as int, state.number_of_shares));
    let mut recipients: Vec<Address> = Vec::new();
    let mut k: usize = 0;
    while k < pairs
        invariant
            pairs == derived.len(),
            2 * pairs == remaining.len(),
            pair_count_matches(remaining@.len() as int, state.number_of_shares),
            vault_amount as int >= state.spec_threshold(),
            k <= pairs,
            recipients@.len() == k,
            forall|j: int| 0 <= j < k ==> #[trigger] recipients@[j] == remaining@[2 * j + 1],
            forall|j: int| 0 <= j < k ==> #[trigger] remaining@[2 * j + 1]@ == derived@[j]@,
        decreases pairs - k,
    {
        let token_account = remaining[2 * k + 1];
        if !token_account.same_as(&derived[k]) {
            assert(remaining@[2 * (k as int) + 1]@ != derived@[k as int]@);
            return Err(DistributorError::InvalidAssociatedTokenAccount);
        }
        recipients.push(token_account);
        k = k + 1;
    }
    assert(recipients@ =~= Seq::new(derived@.len(), |k: int| remaining@[2 * k + 1]));
    Ok(Payouts { recipients, share_size: state.share_size, burned: state.share_size })
}

/// The token accounts derived from the authorities at the even positions.
pub open spec fn derived_token_accounts(
    remaining: Seq<Address>,
    mint: Address,
    token_program: Address,
) -> Seq<Seq<u8>> {
    Seq::new(
        remaining.len() / 2,
        |k: int| associated_token_address_of(remaining[2 * k]@, mint@, token_program@),
    )
}

/// The program's checks on one round: the vault holds the threshold, the
/// auxiliary accounts are one (authority, token account) pair per share but the
/// last, and each token account is the authority's associated token account.
pub fn distribute(
    state: &DistributorState,
    vault_amount: u64,
    remaining: &Vec<Address>,
    token_program: &Address,
) -> (r: Result<Payouts, DistributorError>)
    requires
        state.wf(),
    ensures
        (vault_amount as int) < state.spec_threshold() ==> r == Err::<Payouts, DistributorError>(
            DistributorError::ThresholdNotMet,
        ),
        (vault_amount as int) >= state.spec_threshold() && !pair_count_matches(
            remaining.len() as int,
            state.number_of_shares,
        ) ==> r == Err::<Payouts, DistributorError>(DistributorError::MissingRemainingAccounts),
        (vault_amount as int) >= state.spec_threshold() && pair_count_matches(
            remaining.len() as int,
            state.number_of_shares,
        ) ==> {
            let derived = derived_token_accounts(remaining@, state.mint, *token_program);
            let pairs_ok = forall|k: int|
                0 <= k < derived.len() ==> #[trigger] remaining@[2 * k + 1]@ == derived[k];
            &&& !pairs_ok ==> r == Err::<Payouts, DistributorError>(
                DistributorError::InvalidAssociatedTokenAccount,
            )
            &&& pairs_ok ==> (r matches Ok(p) && p.recipients@ == Seq::new(
                derived.len(),
                |k: int| remaining@[2 * k + 1],
            ) && p.share_size == state.share_size && p.burned == state.share_size)
        },
{
    let pairs = remaining.len() / 2;
    let mut derived: Vec<Address> = Vec::new();
    let mut k: usize = 0;
    while k < pairs
        invariant
            pairs == remaining.len() / 2,
            k <= pairs,
            derived@.len() == k,
            forall|j: int|
                0 <= j < k ==> (#[trigger] derived@[j])@ == associated_token_address_of(
                    remaining@[2 * j]@,
                    state.mint@,
                    token_program@,
                ),
        decreases pairs - k,
    {
        derived.push(associated_token_address(&remaining[2 * k], &state.mint, token_program));
        k = k + 1;
    }
    let r = distribute_with(state, vault_amount, remaining, &derived);
    proof {
        let spec_derived = derived_token_accounts(remaining@, state.mint, *token_program);
        assert forall|j: int| 0 <= j < derived@.len() implies derived@[j]@ == spec_derived[j] by {}
    }
    r
}

} // verus!
