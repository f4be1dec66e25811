use distributor::address::{
    Address, ASSOCIATED_TOKEN_PROGRAM_ID, SYSTEM_PROGRAM_ID, TOKEN_PROGRAM_ID,
};
use distributor::distributor_state::{initialize, DistributorState};
use distributor::transaction::{
    distribute_instruction, distribution_instructions, pair_accounts, remaining_accounts,
    COMPUTE_BUDGET_PROGRAM_ID, COMPUTE_UNIT_LIMIT, DISTRIBUTE_DISCRIMINATOR, FIXED_ACCOUNTS,
    MEMO_PROGRAM_ID,
};
use solana_sdk::pubkey::Pubkey;

fn filler(tag: u8) -> Address {
    Address::new([tag; 32])
}

fn ata(owner: &Address, mint: &Address) -> Address {
    let ata = spl_associated_token_account::get_associated_token_address(
        &Pubkey::new_from_array(owner.bytes),
        &Pubkey::new_from_array(mint.bytes),
    );
    Address::new(ata.to_bytes())
}

fn state(number_of_shares: u64) -> DistributorState {
    initialize(filler(10), filler(11), filler(12), filler(13), 100, number_of_shares, 1, 2).unwrap()
}

#[test]
fn program_ids_match_outside_crates() {
    assert_eq!(spl_token::ID.to_bytes(), TOKEN_PROGRAM_ID);
    assert_eq!(spl_associated_token_account::ID.to_bytes(), ASSOCIATED_TOKEN_PROGRAM_ID);
    assert_eq!(solana_sdk::system_program::ID.to_bytes(), SYSTEM_PROGRAM_ID);
    assert_eq!(solana_sdk::compute_budget::ID.to_bytes(), COMPUTE_BUDGET_PROGRAM_ID);
    assert_eq!(spl_memo::ID.to_bytes(), MEMO_PROGRAM_ID);
}

#[test]
fn pairs_alternate_winner_and_token_account() {
    let winners = vec![filler(1), filler(2)];
    let tokens = vec![filler(3), filler(4)];
    let accounts = pair_accounts(&winners, &tokens);
    let shape: Vec<(Address, bool, bool)> =
        accounts.iter().map(|a| (a.address, a.is_signer, a.is_writable)).collect();
    assert_eq!(
        vec![
            (filler(1), false, false),
            (filler(3), false, true),
            (filler(2), false, false),
            (filler(4), false, true)
        ],
        shape
    );
}

#[test]
fn remaining_accounts_use_associated_token_accounts() {
    let mint = filler(11);
    let winners = vec![filler(1), filler(2), filler(3)];
    let accounts = remaining_accounts(&winners, &mint);
    assert_eq!(6, accounts.len());
    for (k, w) in winners.iter().enumerate() {
        assert_eq!(*w, accounts[2 * k].address);
        let token_account = ata(w, &mint);
        assert_ne!(*w, token_account);
        assert_eq!(token_account, accounts[2 * k + 1].address);
        assert!(accounts[2 * k + 1].is_writable && !accounts[2 * k].is_writable);
    }
    assert!(remaining_accounts(&vec![], &mint).is_empty());
}

#[test]
fn distribute_carries_two_accounts_per_winner() {
    for shares in [2u64, 3, 5, 11] {
        let st = state(shares);
        let winners: Vec<Address> = (0..shares - 1).map(|k| filler(100 + k as u8)).collect();
        let ix = distribute_instruction(&filler(50), &filler(51), &filler(52), &filler(53), &st, &winners);
        assert_eq!(filler(50), ix.program_id);
        assert_eq!(DISTRIBUTE_DISCRIMINATOR.to_vec(), ix.data);
        assert_eq!(FIXED_ACCOUNTS + 2 * (shares as usize - 1), ix.accounts.len());
        let fixed: Vec<(Address, bool, bool)> =
            ix.accounts[..FIXED_ACCOUNTS].iter().map(|a| (a.address, a.is_signer, a.is_writable)).collect();
        assert_eq!(
            vec![
                (filler(51), true, true),
                (filler(52), true, false),
                (filler(53), false, false),
                (st.mint, false, true),
                (st.vault, false, true),
                (Address::new(SYSTEM_PROGRAM_ID), false, false),
                (Address::new(TOKEN_PROGRAM_ID), false, false),
                (Address::new(ASSOCIATED_TOKEN_PROGRAM_ID), false, false),
            ],
            fixed
        );
        for (k, w) in winners.iter().enumerate() {
            assert_eq!(*w, ix.accounts[FIXED_ACCOUNTS + 2 * k].address);
            assert_eq!(ata(w, &st.mint), ix.accounts[FIXED_ACCOUNTS + 2 * k + 1].address);
        }
    }
}

#[test]
fn round_instructions_in_order() {
    let st = state(3);
    let winners = vec![filler(1), filler(2)];
    let memo = b"weekly draw".to_vec();
    let ixs = distribution_instructions(&filler(50), &filler(51), &filler(52), &filler(53), &st, &winners, 12_345, &memo);
    assert_eq!(4, ixs.len());
    assert_eq!(Address::new(COMPUTE_BUDGET_PROGRAM_ID), ixs[0].program_id);
    assert_eq!(vec![2u8, 0x00, 0x35, 0x0c, 0x00], ixs[0].data);
    assert_eq!(800_000, COMPUTE_UNIT_LIMIT);
    let mut price = vec![3u8];
    price.extend_from_slice(&12_345u64.to_le_bytes());
    assert_eq!(price, ixs[1].data);
    assert!(ixs[0].accounts.is_empty() && ixs[1].accounts.is_empty());
    assert_eq!(Address::new(MEMO_PROGRAM_ID), ixs[2].program_id);
    assert_eq!(memo, ixs[2].data);
    assert!(ixs[2].accounts.is_empty());
    assert_eq!(FIXED_ACCOUNTS + 4, ixs[3].accounts.len());
}
