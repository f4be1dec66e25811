use vstd::prelude::*;

use crate::address::{
    associated_token_address, associated_token_address_of, Address, ASSOCIATED_TOKEN_PROGRAM_ID,
    SYSTEM_PROGRAM_ID, TOKEN_PROGRAM_ID,
};
use crate::distributor_state::{derived_token_accounts, pair_count_matches, DistributorState};

verus! {

/// The compute-unit limit a distribution transaction asks for.
pub const COMPUTE_UNIT_LIMIT: u32 = 800000;

/// The instruction tag of the program's `distribute` entry point.
pub const DISTRIBUTE_DISCRIMINATOR: [u8; 8] = [191, 44, 223, 207, 164, 236, 126, 61];

/// The compute budget program (`ComputeBudget111111111111111111111111111111`).
pub const COMPUTE_BUDGET_PROGRAM_ID: [u8; 32] = [
    3, 6, 70, 111, 229, 33, 23, 50, 255, 236, 173, 186, 114, 195, 155, 231, 188, 140, 229, 187,
    197, 247, 18, 107, 44, 67, 155, 58, 64, 0, 0, 0,
];

/// The memo program (`MemoSq4gqABAXKb96qnH8TysNcWxMyWCqXgDLGmfcHr`).
pub const MEMO_PROGRAM_ID: [u8; 32] = [
    5, 74, 83, 90, 153, 41, 33, 6, 77, 36, 232, 113, 96, 218, 56, 124, 124, 53, 181, 221, 188, 146,
    187, 129, 228, 31, 168, 64, 65, 5, 68, 141,
];

/// An account an instruction touches, with how it touches it.
#[derive(Clone, Copy, Debug)]
pub struct AccountRef {
    pub address: Address,
    pub is_signer: bool,
    pub is_writable: bool,
}

/// One instruction of a transaction.
#[derive(Clone, Debug)]
pub struct Instruction {
    pub program_id: Address,
    pub accounts: Vec<AccountRef>,
    pub data: Vec<u8>,
}

pub open spec fn readonly(address: Address) -> AccountRef {
    AccountRef { address, is_signer: false, is_writable: false }
}

pub open spec fn writable(address: Address) -> AccountRef {
    AccountRef { address, is_signer: false, is_writable: true }
}

/// The `n` low-order bytes of `v`, least significant first.
pub open spec fn le_bytes(v: nat, n: nat) -> Seq<u8>
    decreases n,
{
    if n == 0 {
        Seq::empty()
    } else {
        seq![(v % 256) as u8] + le_bytes(v / 256, (n - 1) as nat)
    }
}

/// Relies on `ComputeBudgetInstruction::set_compute_unit_limit` (solana-sdk): an
/// instruction to the compute budget program with no accounts, whose data is the
/// Borsh form of `SetComputeUnitLimit(units)`: tag 2, then `units` in four
/// little-endian bytes.
#[verifier::external_body]
fn compute_unit_limit_instruction(units: u32) -> (r: Instruction)
    ensures
        r.program_id@ == COMPUTE_BUDGET_PROGRAM_ID@,
        r.accounts@.len() == 0,
        r.data@ == seq![2u8] + le_bytes(units as nat, 4),
{
    let ix = solana_sdk::compute_budget::ComputeBudgetInstruction::set_compute_unit_limit(units);
    Instruction {
        program_id: Address { bytes: ix.program_id.to_bytes() },
        accounts: ix.accounts.iter().map(|m| AccountRef {
            address: Address { bytes: m.pubkey.to_bytes() },
            is_signer: m.is_signer,
            is_writable: m.is_writable,
        }).collect(),
        data: ix.data,
    }
}

/// Relies on `ComputeBudgetInstruction::set_compute_unit_price` (solana-sdk): an
/// instruction to the compute budget program with no accounts, whose data is the
/// Borsh form of `SetComputeUnitPrice(micro_lamports)`: tag 3, then the price in
/// eight little-endian bytes.
#[verifier::external_body]
fn compute_unit_price_instruction(micro_lamports: u64) -> (r: Instruction)
    ensures
        r.program_id@ == COMPUTE_BUDGET_PROGRAM_ID@,
        r.accounts@.len() == 0,
        r.data@ == seq![3u8] + le_bytes(micro_lamports as nat, 8),
{
    let ix = solana_sdk::compute_budget::ComputeBudgetInstruction::set_compute_unit_price(
        micro_lamports,
    );
    Instruction {
        program_id: Address { bytes: ix.program_id.to_bytes() },
        accounts: ix.accounts.iter().map(|m| AccountRef {
            address: Address { bytes: m.pubkey.to_bytes() },
            is_signer: m.is_signer,
            is_writable: m.is_writable,
        }).collect(),
        data: ix.data,
    }
}

/// Relies on `spl_memo::build_memo` with no signers: an instruction to the memo
/// program with no accounts whose data is the memo's bytes.
#[verifier::external_body]
fn memo_instruction(memo: &Vec<u8>) -> (r: Instruction)
    ensures
        r.program_id@ == MEMO_PROGRAM_ID@,
        r.accounts@.len() == 0,
        r.data@ == memo@,
{
    let ix = spl_memo::build_memo(memo.as_slice(), &[]);
    Instruction {
        program_id: Address { bytes: ix.program_id.to_bytes() },
        accounts: ix.accounts.iter().map(|m| AccountRef {
            address: Address { bytes: m.pubkey.to_bytes() },
            is_signer: m.is_signer,
            is_writable: m.is_writable,
        }).collect(),
        data: ix.data,
    }
}

/// Two accounts per winner, in winner order: the winner itself, read-only, then
/// its token account, writable.
pub open spec fn paired_accounts(winners: Seq<Address>, token_accounts: Seq<Address>) -> Seq<
    AccountRef,
> {
    Seq::new(
        2 * winners.len(),
        |j: int|
            if j % 2 == 0 {
                readonly(winners[j / 2])
            } else {
                writable(token_accounts[j / 2])
            },
    )
}

/// Lays out the winners and their token accounts as the program expects them.
pub fn pair_accounts(winners: &Vec<Address>, token_accounts: &Vec<Address>) -> (r: Vec<AccountRef>)
    requires
        winners@.len() == token_accounts@.len(),
    ensures
        r@ == paired_accounts(winners@, token_accounts@),
{
    let mut accounts: Vec<AccountRef> = Vec::new();
    let mut k: usize = 0;
    while k < winners.len()
        invariant
            winners@.len() == token_accounts@.len(),
            k <= winners@.len(),
            accounts@ == paired_accounts(winners@.take(k as int), token_accounts@.take(k as int)),
        decreases winners@.len() - k,
    {
        accounts.push(AccountRef { address: winners[k], is_signer: false, is_writable: false });
        accounts.push(
            AccountRef { address: token_accounts[k], is_signer: false, is_writable: true },
        );
        k = k + 1;
        assert(accounts@ =~= paired_accounts(
            winners@.take(k as int),
            token_accounts@.take(k as int),
        ));
    }
    assert(winners@.take(k as int) =~= winners@);
    assert(token_accounts@.take(k as int) =~= token_accounts@);
    accounts
}

/// Whether `accounts` are the winners' pairs: the winner, read-only, then its
/// associated token account for `mint`, writable.
pub open spec fn winner_pairs(accounts: Seq<AccountRef>, winners: Seq<Address>, mint: Address) -> bool {
    &&& accounts.len() == 2 * winners.len()
    &&& forall|k: int|
        0 <= k < winners.len() ==> #[trigger] accounts[2 * k] == readonly(winners[k])
            && accounts[2 * k + 1].address@ == associated_token_address_of(
            winners[k]@,
            mint@,
            TOKEN_PROGRAM_ID@,
        ) && !accounts[2 * k + 1].is_signer && accounts[2 * k + 1].is_writable
}

/// The auxiliary accounts of a distribution: for each winner, the winner and its
/// associated token account for `mint`.
pub fn remaining_accounts(winners: &Vec<Address>, mint: &Address) -> (r: Vec<AccountRef>)
    ensures
        winner_pairs(r@, winners@, *mint),
{
    let token_program = Address { bytes: TOKEN_PROGRAM_ID };
    let mut token_accounts: Vec<Address> = Vec::new();
    let mut k: usize = 0;
    while k < winners.len()
        invariant
            k <= winners@.len(),
            token_accounts@.len() == k,
            token_program@ == TOKEN_PROGRAM_ID@,
            forall|j: int|
                0 <= j < k ==> (#[trigger] token_accounts@[j])@ == associated_token_address_of(
                    winners@[j]@,
                    mint@,
                    TOKEN_PROGRAM_ID@,
                ),
        decreases winners@.len() - k,
    {
        token_accounts.push(associated_token_address(&winners[k], mint, &token_program));
        k = k + 1;
    }
    let r = pair_accounts(winners, &token_accounts);
    assert forall|k: int| 0 <= k < winners@.len() implies #[trigger] r@[2 * k] == readonly(
        winners@[k],
    ) && r@[2 * k + 1].address@ == associated_token_address_of(
        winners@[k]@,
        mint@,
        TOKEN_PROGRAM_ID@,
    ) && !r@[2 * k + 1].is_signer && r@[2 * k + 1].is_writable by {
        assert((2 * k) / 2 == k);
        assert((2 * k + 1) / 2 == k);
        assert(token_accounts@[k]@ == associated_token_address_of(
            winners@[k]@,
            mint@,
            TOKEN_PROGRAM_ID@,
        ));
    }
    r
}

/// The accounts of the program's `distribute` entry point that come before the
/// winners, in the order it declares them.
pub open spec fn fixed_accounts(
    payer: Address,
    distributor_authority: Address,
    state_address: Address,
    state: DistributorState,
) -> Seq<AccountRef> {
    seq![
        AccountRef { address: payer, is_signer: true, is_writable: true },
        AccountRef { address: distributor_authority, is_signer: true, is_writable: false },
        readonly(state_address),
        writable(state.mint),
        writable(state.vault),
        readonly(Address { bytes: SYSTEM_PROGRAM_ID }),
        readonly(Address { bytes: TOKEN_PROGRAM_ID }),
        readonly(Address { bytes: ASSOCIATED_TOKEN_PROGRAM_ID }),
    ]
}

/// Number of accounts `distribute` takes before the winners.
pub const FIXED_ACCOUNTS: usize = 8;

/// The program's `distribute` instruction paying `winners`.
pub fn distribute_instruction(
    program_id: &Address,
    payer: &Address,
    distributor_authority: &Address,
    state_address: &Address,
    state: &DistributorState,
    winners: &Vec<Address>,
) -> (r: Instruction)
    ensures
        r.program_id == *program_id,
        r.data@ == DISTRIBUTE_DISCRIMINATOR@,
        r.accounts@.len() == FIXED_ACCOUNTS + 2 * winners@.len(),
        r.accounts@.take(FIXED_ACCOUNTS as int) == fixed_accounts(
            *payer,
            *distributor_authority,
            *state_address,
            *state,
        ),
        winner_pairs(r.accounts@.skip(FIXED_ACCOUNTS as int), winners@, state.mint),
{
    let mut accounts: Vec<AccountRef> = Vec::new();
    accounts.push(AccountRef { address: *payer, is_signer: true, is_writable: true });
    accounts.push(
        AccountRef { address: *distributor_authority, is_signer: true, is_writable: false },
    );
    accounts.push(AccountRef { address: *state_address, is_signer: false, is_writable: false });
    accounts.push(AccountRef { address: state.mint, is_signer: false, is_writable: true });
    accounts.push(AccountRef { address: state.vault, is_signer: false, is_writable: true });
    accounts.push(
        AccountRef {
            address: Address { bytes: SYSTEM_PROGRAM_ID },
            is_signer: false,
            is_writable: false,
        },
    );
    accounts.push(
        AccountRef {
            address: Address { bytes: TOKEN_PROGRAM_ID },
            is_signer: false,
            is_writable: false,
        },
    );
    accounts.push(
        AccountRef {
            address: Address { bytes: ASSOCIATED_TOKEN_PROGRAM_ID },
            is_signer: false,
            is_writable: false,
        },
    );
    let ghost fixed = accounts@;
    let mut pairs = remaining_accounts(winners, &state.mint);
    let ghost aux = pairs@;
    accounts.append(&mut pairs);
    assert(fixed =~= fixed_accounts(*payer, *distributor_authority, *state_address, *state));
    assert(accounts@.take(FIXED_ACCOUNTS as int) =~= fixed);
    assert(accounts@.skip(FIXED_ACCOUNTS as int) =~= aux);
    let data = vec![191u8, 44, 223, 207, 164, 236, 126, 61];
    assert(data@ =~= DISTRIBUTE_DISCRIMINATOR@);
    Instruction { program_id: *program_id, accounts, data }
}

/// Whether `ix` sets the compute-unit limit to `units`.
pub open spec fn is_compute_unit_limit(ix: Instruction, units: u32) -> bool {
    &&& ix.program_id@ == COMPUTE_BUDGET_PROGRAM_ID@
    &&& ix.accounts@.len() == 0
    &&& ix.data@ == seq![2u8] + le_bytes(units as nat, 4)
}

/// Whether `ix` sets the compute-unit price to `micro_lamports`.
pub open spec fn is_compute_unit_price(ix: Instruction, micro_lamports: u64) -> bool {
    &&& ix.program_id@ == COMPUTE_BUDGET_PROGRAM_ID@
    &&& ix.accounts@.len() == 0
    &&& ix.data@ == seq![3u8] + le_bytes(micro_lamports as nat, 8)
}

/// Whether `ix` records the memo `memo`.
pub open spec fn is_memo(ix: Instruction, memo: Seq<u8>) -> bool {
    &&& ix.program_id@ == MEMO_PROGRAM_ID@
    &&& ix.accounts@.len() == 0
    &&& ix.data@ == memo
}

/// The instructions of one distribution round, in order: the compute-unit
/// limit, the priority fee, the memo, and the program's `distribute`.
pub fn distribution_instructions(
    program_id: &Address,
    payer: &Address,
    distributor_authority: &Address,
    state_address: &Address,
    state: &DistributorState,
    winners: &Vec<Address>,
    priority_fee: u64,
    memo: &Vec<u8>,
) -> (r: Vec<Instruction>)
    ensures
        r@.len() == 4,
        is_compute_unit_limit(r@[0], COMPUTE_UNIT_LIMIT),
        is_compute_unit_price(r@[1], priority_fee),
        is_memo(r@[2], memo@),
        r@[3].program_id == *program_id,
        r@[3].data@ == DISTRIBUTE_DISCRIMINATOR@,
        r@[3].accounts@.len() == FIXED_ACCOUNTS + 2 * winners@.len(),
        r@[3].accounts@.take(FIXED_ACCOUNTS as int) == fixed_accounts(
            *payer,
            *distributor_authority,
            *state_address,
            *state,
        ),
        winner_pairs(r@[3].accounts@.skip(FIXED_ACCOUNTS as int), winners@, state.mint),
{
    let mut ixs: Vec<Instruction> = Vec::new();
    ixs.push(compute_unit_limit_instruction(COMPUTE_UNIT_LIMIT));
    ixs.push(compute_unit_price_instruction(priority_fee));
    ixs.push(memo_instruction(memo));
    ixs.push(
        distribute_instruction(
            program_id,
            payer,
            distributor_authority,
            state_address,
            state,
            winners,
        ),
    );
    ixs
}

/// For a distribution of `number_of_shares` shares, the auxiliary accounts
/// shaped for `number_of_shares - 1` winners are `2 * (number_of_shares - 1)`
/// accounts, alternating each winner and its token account in winner order, and
/// they pass the program's checks on their count and on each token account.
pub proof fn lemma_account_shaping(
    accounts: Seq<AccountRef>,
    winners: Seq<Address>,
    state: DistributorState,
)
    requires
        state.wf(),
        winners.len() == state.number_of_shares - 1,
        winner_pairs(accounts, winners, state.mint),
    ensures
        accounts.len() == 2 * (state.number_of_shares - 1),
        forall|k: int|
            0 <= k < winners.len() ==> (#[trigger] accounts[2 * k]).address == winners[k]
                && !accounts[2 * k].is_writable && accounts[2 * k + 1].is_writable,
        pair_count_matches(accounts.len() as int, state.number_of_shares),
        ({
            let addrs = accounts.map_values(|a: AccountRef| a.address);
            let derived = derived_token_accounts(
                addrs,
                state.mint,
                Address { bytes: TOKEN_PROGRAM_ID },
            );
            forall|k: int| 0 <= k < derived.len() ==> #[trigger] addrs[2 * k + 1]@ == derived[k]
        }),
{
    let addrs = accounts.map_values(|a: AccountRef| a.address);
    let derived = derived_token_accounts(addrs, state.mint, Address { bytes: TOKEN_PROGRAM_ID });
    assert forall|k: int| 0 <= k < derived.len() implies #[trigger] addrs[2 * k + 1]@
        == derived[k] by {
        assert(accounts[2 * k] == readonly(winners[k]));
    }
}

} // verus!
