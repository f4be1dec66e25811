use vstd::prelude::*;

use crate::address::{address_from_text, parse_address, Address};

verus! {

/// One entry of a transaction's post-execution token balances.
#[derive(Clone, Debug)]
pub struct TokenBalance {
    /// Position of the token account in the transaction's account list.
    pub account_index: u8,
    /// The raw amount, as decimal text.
    pub amount: String,
}

/// The execution metadata of a confirmed transaction.
#[derive(Clone, Debug)]
pub struct TransactionMeta {
    pub post_token_balances: Option<Vec<TokenBalance>>,
}

/// A confirmed transaction as a notification service reports it.
#[derive(Clone, Debug)]
pub struct TransactionRecord {
    /// The account list, in textual form; absent where the transaction is not
    /// reported as a raw message.
    pub account_keys: Option<Vec<String>>,
    pub meta: Option<TransactionMeta>,
}

/// Why a record yields no vault balance.
#[derive(Clone, Copy, Debug, PartialEq, Eq, Structural)]
pub enum ExtractError {
    MissingAccountKeys,
    InvalidAccountKey,
    VaultNotFound,
    MissingMeta,
    MissingTokenBalances,
    BalanceNotFound,
    InvalidAmount,
}

pub open spec fn is_digit(c: char) -> bool {
    '0' <= c && c <= '9'
}

/// The value of a string of decimal digits.
pub open spec fn digits_value(s: Seq<char>) -> int
    decreases s.len(),
{
    if s.len() == 0 {
        0
    } else {
        digits_value(s.drop_last()) * 10 + (s.last() as u32 - '0' as u32)
    }
}

/// The digits of a decimal text, past an optional leading `+`.
pub open spec fn unsigned_digits(s: Seq<char>) -> Seq<char> {
    if s.len() > 0 && s[0] == '+' {
        s.subrange(1, s.len() as int)
    } else {
        s
    }
}

/// The unsigned 64-bit integer a text denotes: an optional `+` followed by one
/// or more decimal digits, whose value fits.
pub open spec fn decimal_u64(s: Seq<char>) -> Option<u64> {
    let d = unsigned_digits(s);
    if d.len() > 0 && (forall|i: int| 0 <= i < d.len() ==> is_digit(#[trigger] d[i]))
        && digits_value(d) <= u64::MAX {
        Some(digits_value(d) as u64)
    } else {
        None
    }
}

/// Relies on `str::parse::<u64>`: an optional `+` and then decimal digits only,
/// and the value must fit (the documentation of `u64::from_str_radix`).
#[verifier::external_body]
fn parse_u64(text: &str) -> (r: Option<u64>)
    ensures
        r == decimal_u64(text@),
{
    text.parse::<u64>().ok()
}

/// Whether every key of the account list is the textual form of an address.
pub open spec fn keys_parse(keys: Seq<String>) -> bool {
    forall|i: int| 0 <= i < keys.len() ==> (#[trigger] address_from_text(keys[i]@)) is Some
}

/// The addresses that the keys of an account list denote.
pub open spec fn parsed_keys(keys: Seq<String>) -> Seq<Seq<u8>> {
    keys.map_values(
        |k: String|
            match address_from_text(k@) {
                Some(a) => a,
                None => Seq::empty(),
            },
    )
}

/// The views of a list of addresses.
pub open spec fn address_views(addrs: Seq<Address>) -> Seq<Seq<u8>> {
    addrs.map_values(|a: Address| a@)
}

/// The first position at or after `i` whose address is `vault`.
pub open spec fn key_position_from(keys: Seq<Seq<u8>>, vault: Seq<u8>, i: int) -> Option<int>
    decreases keys.len() - i,
{
    if i < 0 || i >= keys.len() {
        None
    } else if keys[i] == vault {
        Some(i)
    } else {
        key_position_from(keys, vault, i + 1)
    }
}

/// The first balance at or after `i` that belongs to account position `pos`.
pub open spec fn balance_position_from(balances: Seq<TokenBalance>, pos: int, i: int) -> Option<
    int,
>
    decreases balances.len() - i,
{
    if i < 0 || i >= balances.len() {
        None
    } else if balances[i].account_index as int == pos {
        Some(i)
    } else {
        balance_position_from(balances, pos, i + 1)
    }
}

/// The vault's balance after a transaction whose account list holds `keys`:
/// the amount of the first post-execution token balance at the vault's first
/// position, or why there is none.
pub open spec fn balance_after(
    vault: Seq<u8>,
    keys: Seq<Seq<u8>>,
    meta: Option<TransactionMeta>,
) -> Result<u64, ExtractError> {
    match key_position_from(keys, vault, 0) {
        None => Err(ExtractError::VaultNotFound),
        Some(pos) => match meta {
            None => Err(ExtractError::MissingMeta),
            Some(meta) => match meta.post_token_balances {
                None => Err(ExtractError::MissingTokenBalances),
                Some(balances) => match balance_position_from(balances@, pos, 0) {
                    None => Err(ExtractError::BalanceNotFound),
                    Some(b) => match decimal_u64(balances@[b].amount@) {
                        None => Err(ExtractError::InvalidAmount),
                        Some(v) => Ok(v),
                    },
                },
            },
        },
    }
}

/// The vault's balance right after the transaction `record`, or why the record
/// does not give it: every key must denote an address.
pub open spec fn vault_balance_of(vault: Seq<u8>, record: TransactionRecord) -> Result<
    u64,
    ExtractError,
> {
    match record.account_keys {
        None => Err(ExtractError::MissingAccountKeys),
        Some(keys) => if !keys_parse(keys@) {
            Err(ExtractError::InvalidAccountKey)
        } else {
            balance_after(vault, parsed_keys(keys@), record.meta)
        },
    }
}

/// Parses every key of an account list, failing on the first that is no address.
fn parse_keys(keys: &Vec<String>) -> (r: Option<Vec<Address>>)
    ensures
        r is Some <==> keys_parse(keys@),
        r matches Some(addrs) ==> address_views(addrs@) == parsed_keys(keys@),
{
    let mut addrs: Vec<Address> = Vec::new();
    let mut i: usize = 0;
    while i < keys.len()
        invariant
            i <= keys@.len(),
            addrs@.len() == i,
            forall|j: int|
                0 <= j < i ==> address_from_text(keys@[j]@) == Some((#[trigger] addrs@[j])@),
        decreases keys@.len() - i,
    {
        match parse_address(keys[i].as_str()) {
            Some(a) => addrs.push(a),
            None => {
                assert(address_from_text(keys@[i as int]@) is None);
                return None;
            },
        }
        i = i + 1;
    }
    assert(keys_parse(keys@)) by {
        assert forall|j: int| 0 <= j < keys@.len() implies (#[trigger] address_from_text(
            keys@[j]@,
        )) is Some by {
            assert(address_from_text(keys@[j]@) == Some(addrs@[j]@));
        }
    }
    assert(address_views(addrs@) =~= parsed_keys(keys@));
    Some(addrs)
}

/// The first position of `vault` among `addrs`.
fn find_key(addrs: &Vec<Address>, vault: &Address) -> (r: Option<usize>)
    ensures
        r matches Some(p) ==> key_position_from(address_views(addrs@), vault@, 0) == Some(
            p as int,
        ),
        r is None ==> key_position_from(address_views(addrs@), vault@, 0) is None,
{
    let ghost keys = address_views(addrs@);
    let mut pos: usize = 0;
    while pos < addrs.len()
        invariant
            keys == address_views(addrs@),
            pos <= addrs@.len(),
            key_position_from(keys, vault@, 0) == key_position_from(keys, vault@, pos as int),
        decreases addrs@.len() - pos,
    {
        if addrs[pos].same_as(vault) {
            return Some(pos);
        }
        pos = pos + 1;
    }
    None
}

/// The first balance entry that belongs to account position `pos`.
fn find_balance(balances: &Vec<TokenBalance>, pos: usize) -> (r: Option<usize>)
    ensures
        r matches Some(b) ==> b < balances@.len() && balance_position_from(balances@, pos as int, 0)
            == Some(b as int),
        r is None ==> balance_position_from(balances@, pos as int, 0) is None,
{
    let mut b: usize = 0;
    while b < balances.len()
        invariant
            b <= balances@.len(),
            balance_position_from(balances@, pos as int, 0) == balance_position_from(
                balances@,
                pos as int,
                b as int,
            ),
        decreases balances@.len() - b,
    {
        if balances[b].account_index as usize == pos {
            return Some(b);
        }
        b = b + 1;
    }
    None
}

/// The vault's balance after a transaction whose account list holds `keys`:
/// the amount of the first post-execution token balance at the vault's first
/// position.
pub fn vault_balance_after(
    vault: &Address,
    keys: &Vec<Address>,
    meta: &Option<TransactionMeta>,
) -> (r: Result<u64, ExtractError>)
    ensures
        r == balance_after(vault@, address_views(keys@), *meta),
{
    let pos = match find_key(keys, vault) {
        Some(pos) => pos,
        None => return Err(ExtractError::VaultNotFound),
    };
    let meta = match meta {
        Some(meta) => meta,
        None => return Err(ExtractError::MissingMeta),
    };
    let balances = match &meta.post_token_balances {
        Some(balances) => balances,
        None => return Err(ExtractError::MissingTokenBalances),
    };
    let b = match find_balance(balances, pos) {
        Some(b) => b,
        None => return Err(ExtractError::BalanceNotFound),
    };
    match parse_u64(balances[b].amount.as_str()) {
        Some(v) => Ok(v),
        None => Err(ExtractError::InvalidAmount),
    }
}

/// The vault's balance right after the transaction `record`: every key of its
/// account list must denote an address, and the vault must be among them.
pub fn extract_vault_balance(vault: &Address, record: &TransactionRecord) -> (r: Result<
    u64,
    ExtractError,
>)
    ensures
        r == vault_balance_of(vault@, *record),
{
    let keys = match &record.account_keys {
        Some(keys) => keys,
        None => return Err(ExtractError::MissingAccountKeys),
    };
    let addrs = match parse_keys(keys) {
        Some(addrs) => addrs,
        None => return Err(ExtractError::InvalidAccountKey),
    };
    vault_balance_after(vault, &addrs, &record.meta)
}

/// The unsigned integer whose little-endian bytes are `b`.
pub open spec fn le_value(b: Seq<u8>) -> int
    decreases b.len(),
{
    if b.len() == 0 {
        0
    } else {
        b[0] as int + 256 * le_value(b.subrange(1, b.len() as int))
    }
}

/// Whether the four bytes at `at` are the tag of an optional field: 0 (absent)
/// or 1 (present), little-endian.
pub open spec fn option_tag_valid(data: Seq<u8>, at: int) -> bool {
    &&& data[at] == 0 || data[at] == 1
    &&& data[at + 1] == 0 && data[at + 2] == 0 && data[at + 3] == 0
}

/// The amount held by a token account, from its 165-byte layout: mint (0..32),
/// owner (32..64), amount (64..72), optional delegate (72..108), state (108),
/// optional native reserve (109..121), delegated amount (121..129) and optional
/// close authority (129..165). Only an initialized (1) or frozen (2) account
/// with well-formed tags has one.
pub open spec fn token_account_amount(data: Seq<u8>) -> Option<u64> {
    if data.len() == 165 && option_tag_valid(data, 72) && (data[108] == 1 || data[108] == 2)
        && option_tag_valid(data, 109) && option_tag_valid(data, 129) {
        Some(le_value(data.subrange(64, 72)) as u64)
    } else {
        None
    }
}

/// Relies on `Pack::unpack` for `spl_token::state::Account`: it accepts exactly
/// the initialized accounts of `token_account_amount`'s layout and reads the
/// amount from it.
#[verifier::external_body]
fn unpack_token_amount(data: &Vec<u8>) -> (r: Option<u64>)
    ensures
        r == token_account_amount(data@),
{
    let account = <spl_token::state::Account as solana_sdk::program_pack::Pack>::unpack(data);
    account.ok().map(|a| a.amount)
}

/// The balance of the vault, read from its account data as the ledger holds it.
pub fn vault_account_balance(data: &Vec<u8>) -> (r: Option<u64>)
    ensures
        r == token_account_amount(data@),
{
    unpack_token_amount(data)
}

/// The balance given by the last of the first `k` records that gives one.
pub open spec fn last_balance_upto(vault: Seq<u8>, records: Seq<TransactionRecord>, k: int) -> Option<
    u64,
>
    decreases k,
{
    if k <= 0 || k > records.len() {
        None
    } else {
        match vault_balance_of(vault, records[k - 1]) {
            Ok(v) => Some(v),
            Err(_) => last_balance_upto(vault, records, k - 1),
        }
    }
}

/// The vault's balance after the last record of the batch that gives one;
/// records that give none are passed over.
pub fn last_vault_balance(vault: &Address, records: &Vec<TransactionRecord>) -> (r: Option<u64>)
    ensures
        r == last_balance_upto(vault@, records@, records@.len() as int),
{
    let mut k: usize = records.len();
    while k > 0
        invariant
            k <= records@.len(),
            last_balance_upto(vault@, records@, records@.len() as int) == last_balance_upto(
                vault@,
                records@,
                k as int,
            ),
        decreases k,
    {
        match extract_vault_balance(vault, &records[k - 1]) {
            Ok(v) => return Some(v),
            Err(_) => {},
        }
        k = k - 1;
    }
    None
}

} // verus!
