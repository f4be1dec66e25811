use distributor::address::Address;
use distributor::balance::{
    extract_vault_balance, last_vault_balance, vault_account_balance, vault_balance_after,
    ExtractError, TokenBalance, TransactionMeta, TransactionRecord,
};
use std::str::FromStr;

const VAULT: &str = "4wZ2E3St33iB5xu9R2Kf6NbMa5pkoeqVNe1SkcFVvoX5";
const PAYER: &str = "7GCihgDB8fe6KNjn2MYtkzZcRjQy3t9GHdC8uHYmW2hr";
const TOKEN_PROGRAM: &str = "TokenkegQfeZyiNwAJbNbGKPFXCWuBvf9Ss623VQ5DA";

fn address(text: &str) -> Address {
    Address::new(solana_sdk::pubkey::Pubkey::from_str(text).unwrap().to_bytes())
}

fn balance(account_index: u8, amount: &str) -> TokenBalance {
    TokenBalance { account_index, amount: amount.to_string() }
}

fn record(keys: &[&str], balances: Vec<TokenBalance>) -> TransactionRecord {
    TransactionRecord {
        account_keys: Some(keys.iter().map(|k| k.to_string()).collect()),
        meta: Some(TransactionMeta { post_token_balances: Some(balances) }),
    }
}

/// A token transfer into the vault, then a deposit that left it lower.
#[test]
fn should_find_vault_post_balance() {
    let vault = address(VAULT);
    let transfer = record(
        &[PAYER, VAULT, TOKEN_PROGRAM],
        vec![balance(0, "120"), balance(1, "5000000000")],
    );
    assert_eq!(Ok(5000000000), extract_vault_balance(&vault, &transfer));

    let deposit = record(&[PAYER, TOKEN_PROGRAM, VAULT], vec![balance(2, "4000000000"), balance(0, "7")]);
    assert_eq!(Ok(4000000000), extract_vault_balance(&vault, &deposit));
}

#[test]
fn extract_reports_each_missing_part() {
    let vault = address(VAULT);
    let mut no_keys = record(&[VAULT], vec![balance(0, "1")]);
    no_keys.account_keys = None;
    assert_eq!(Err(ExtractError::MissingAccountKeys), extract_vault_balance(&vault, &no_keys));

    let bad_key = record(&[VAULT, "not-an-address"], vec![balance(0, "1")]);
    assert_eq!(Err(ExtractError::InvalidAccountKey), extract_vault_balance(&vault, &bad_key));

    let elsewhere = record(&[PAYER, TOKEN_PROGRAM], vec![balance(0, "1")]);
    assert_eq!(Err(ExtractError::VaultNotFound), extract_vault_balance(&vault, &elsewhere));

    let mut no_meta = record(&[VAULT], vec![]);
    no_meta.meta = None;
    assert_eq!(Err(ExtractError::MissingMeta), extract_vault_balance(&vault, &no_meta));

    let no_balances = TransactionRecord {
        account_keys: Some(vec![VAULT.to_string()]),
        meta: Some(TransactionMeta { post_token_balances: None }),
    };
    assert_eq!(Err(ExtractError::MissingTokenBalances), extract_vault_balance(&vault, &no_balances));

    let other_index = record(&[PAYER, VAULT], vec![balance(0, "1")]);
    assert_eq!(Err(ExtractError::BalanceNotFound), extract_vault_balance(&vault, &other_index));

    let bad_amount = record(&[VAULT], vec![balance(0, "12a")]);
    assert_eq!(Err(ExtractError::InvalidAmount), extract_vault_balance(&vault, &bad_amount));
}

#[test]
fn amounts_parse_as_unsigned_decimals() {
    let vault = address(VAULT);
    let amount = |text: &str| extract_vault_balance(&vault, &record(&[VAULT], vec![balance(0, text)]));
    assert_eq!(Ok(12), amount("+12"));
    assert_eq!(Ok(18446744073709551615), amount("18446744073709551615"));
    assert_eq!(Err(ExtractError::InvalidAmount), amount("18446744073709551616"));
    assert_eq!(Err(ExtractError::InvalidAmount), amount("-1"));
    assert_eq!(Err(ExtractError::InvalidAmount), amount(""));
    assert_eq!(Err(ExtractError::InvalidAmount), amount("+"));
}

#[test]
fn first_matching_balance_entry_counts() {
    let vault = address(VAULT);
    let twice = record(&[VAULT], vec![balance(0, "3"), balance(0, "9")]);
    assert_eq!(Ok(3), extract_vault_balance(&vault, &twice));
}

#[test]
fn batch_uses_last_record_that_shows_vault() {
    let vault = address(VAULT);
    let records = vec![
        record(&[VAULT], vec![balance(0, "100")]),
        record(&[VAULT], vec![balance(0, "200")]),
        record(&[PAYER], vec![balance(0, "300")]),
        record(&[VAULT], vec![balance(0, "oops")]),
    ];
    assert_eq!(Some(200), last_vault_balance(&vault, &records));
    assert_eq!(None, last_vault_balance(&vault, &records[2..].to_vec()));
    assert_eq!(None, last_vault_balance(&vault, &vec![]));
}

fn token_account_data(amount: u64, state: u8) -> Vec<u8> {
    let mut data = vec![0u8; 165];
    data[64..72].copy_from_slice(&amount.to_le_bytes());
    data[108] = state;
    data
}

#[test]
fn vault_account_data_gives_amount() {
    assert_eq!(Some(5_000_000_000), vault_account_balance(&token_account_data(5_000_000_000, 1)));
    assert_eq!(Some(42), vault_account_balance(&token_account_data(42, 2)));
    assert_eq!(None, vault_account_balance(&token_account_data(42, 0)));
    assert_eq!(None, vault_account_balance(&token_account_data(42, 3)));
    let mut bad_tag = token_account_data(42, 1);
    bad_tag[72] = 2;
    assert_eq!(None, vault_account_balance(&bad_tag));
    assert_eq!(None, vault_account_balance(&vec![0u8; 164]));
}

#[test]
fn balance_after_parsed_keys() {
    let vault = address(VAULT);
    let keys = vec![address(PAYER), vault, vault];
    let meta = Some(TransactionMeta { post_token_balances: Some(vec![balance(2, "9"), balance(1, "77")]) });
    assert_eq!(Ok(77), vault_balance_after(&vault, &keys, &meta));
    assert_eq!(Err(ExtractError::VaultNotFound), vault_balance_after(&vault, &vec![address(PAYER)], &meta));
    assert_eq!(Err(ExtractError::MissingMeta), vault_balance_after(&vault, &keys, &None));
}
