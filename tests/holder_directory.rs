use distributor::address::Address;
use distributor::holders::{
    page_of_index, sample_distinct_indices, select_winners, HeliusClient, HolderError, PageGroup,
    ScanStep, MAX_PAGES, PAGE_SIZE,
};
use std::str::FromStr;

const MARKER_MINT: &str = "7GCihgDB8fe6KNjn2MYtkzZcRjQy3t9GHdC8uHYmW2hr";

fn marker_mint() -> Address {
    Address::new(solana_sdk::pubkey::Pubkey::from_str(MARKER_MINT).unwrap().to_bytes())
}

/// Runs a scan against a listing that reports `totals[p - 1]` records on page `p`.
fn scan(client: &HeliusClient, totals: &[u64]) -> (ScanStep, Vec<u64>) {
    let mut fetched = Vec::new();
    let mut step = client.discovery_start();
    while let ScanStep::FetchPage(page) = step {
        fetched.push(page);
        let total = totals.get(page as usize - 1).copied().unwrap_or(0);
        step = HeliusClient::discovery_step(page, total);
    }
    (step, fetched)
}

/// The holder record at a listing index: a distinct owner address per index.
fn holder(index: u64) -> Address {
    let mut bytes = [0u8; 32];
    bytes[..8].copy_from_slice(&index.to_le_bytes());
    bytes[31] = 1;
    Address::new(bytes)
}

fn listing_page(page: u64, holders: u64) -> Vec<Address> {
    let first = (page - 1) * PAGE_SIZE;
    (first..holders.min(first + PAGE_SIZE)).map(holder).collect()
}

#[test]
fn should_discover_token_holders_number() {
    let client = HeliusClient::new(marker_mint(), None);
    let (step, fetched) = scan(&client, &[1000, 1000, 400]);
    assert_eq!(ScanStep::Finished(2400), step);
    assert_eq!(vec![1, 2, 3], fetched);
}

#[test]
fn scan_resumes_from_cached_count() {
    let totals = [1000, 1000, 1000, 1000, 17];
    for cached in [0u64, 999, 1000, 2500, 4016] {
        let client = HeliusClient::new(marker_mint(), Some(cached));
        let (step, fetched) = scan(&client, &totals);
        assert_eq!(ScanStep::Finished(4017), step);
        assert_eq!(cached / 1000 + 1, fetched[0]);
    }
    let client = HeliusClient::new(marker_mint(), Some(7000));
    let (step, fetched) = scan(&client, &totals);
    assert_eq!(ScanStep::Finished(7000), step);
    assert_eq!(vec![8], fetched);
}

#[test]
fn scan_gives_up_after_page_ceiling() {
    let client = HeliusClient::new(marker_mint(), None);
    let full = vec![1000u64; 3000];
    let (step, fetched) = scan(&client, &full);
    assert_eq!(ScanStep::TooManyPages, step);
    assert_eq!(MAX_PAGES as usize - 1, fetched.len());
    let past = HeliusClient::new(marker_mint(), Some(MAX_PAGES * PAGE_SIZE));
    assert_eq!(ScanStep::TooManyPages, past.discovery_start());
}

#[test]
fn update_replaces_cached_count() {
    let mut client = HeliusClient::new(marker_mint(), Some(5));
    assert_eq!(5, client.holders_number());
    client.update_token_holders_number(2400);
    assert_eq!(2400, client.holders_number());
    assert_eq!(marker_mint(), client.mint());
}

#[test]
fn pages_are_counted_from_one() {
    assert_eq!(1, page_of_index(0));
    assert_eq!(1, page_of_index(999));
    assert_eq!(2, page_of_index(1000));
    assert_eq!(3, page_of_index(2399));
}

fn check_plan(groups: &[PageGroup], n: u64, holders: u64) {
    let flat: Vec<u64> = groups.iter().flat_map(|g| g.indices.iter().copied()).collect();
    assert_eq!(n as usize, flat.len());
    assert!(flat.windows(2).all(|w| w[0] < w[1]));
    assert!(flat.iter().all(|i| *i < holders));
    for g in groups {
        assert!(!g.indices.is_empty());
        assert!(g.indices.iter().all(|i| i / 1000 + 1 == g.page));
    }
    assert!(groups.windows(2).all(|w| w[0].page < w[1].page));
}

#[test]
fn should_select_random_holders() {
    let holders = 10;
    let client = HeliusClient::new(marker_mint(), Some(holders));
    let groups = client.draw_winners(9).unwrap();
    check_plan(&groups, 9, holders);
    let pages: Vec<Vec<Address>> = groups.iter().map(|g| listing_page(g.page, holders)).collect();
    let winners = select_winners(&groups, &pages).unwrap();
    assert_eq!(9, winners.len());
    let flat: Vec<u64> = groups.iter().flat_map(|g| g.indices.iter().copied()).collect();
    for (w, i) in winners.iter().zip(flat) {
        assert_eq!(holder(i), *w);
    }
    assert_eq!(HolderError::InsufficientHolders, client.draw_winners(10).unwrap_err());
    assert_eq!(HolderError::InsufficientHolders, client.draw_winners(11).unwrap_err());
}

#[test]
fn draw_spans_several_pages() {
    let holders = 5_500;
    let client = HeliusClient::new(marker_mint(), Some(holders));
    for _ in 0..20 {
        let groups = client.draw_winners(300).unwrap();
        check_plan(&groups, 300, holders);
        let pages: Vec<Vec<Address>> = groups.iter().map(|g| listing_page(g.page, holders)).collect();
        let winners = select_winners(&groups, &pages).unwrap();
        let flat: Vec<u64> = groups.iter().flat_map(|g| g.indices.iter().copied()).collect();
        let expected: Vec<Address> = flat.into_iter().map(holder).collect();
        assert_eq!(expected, winners);
    }
}

#[test]
fn draw_from_empty_directory_fails() {
    let client = HeliusClient::new(marker_mint(), None);
    assert_eq!(HolderError::InsufficientHolders, client.draw_winners(0).unwrap_err());
}

#[test]
fn short_page_is_malformed() {
    let groups = vec![PageGroup { page: 1, indices: vec![3, 8] }];
    let short = vec![(0..5).map(holder).collect::<Vec<_>>()];
    assert_eq!(Err(HolderError::MalformedPage), select_winners(&groups, &short));
    assert_eq!(Err(HolderError::MalformedPage), select_winners(&groups, &vec![]));
    let full = vec![(0..10).map(holder).collect::<Vec<_>>()];
    assert_eq!(Ok(vec![holder(3), holder(8)]), select_winners(&groups, &full));
    let second = vec![PageGroup { page: 2, indices: vec![1004] }];
    let page2 = vec![(1000..1010).map(holder).collect::<Vec<_>>()];
    assert_eq!(Ok(vec![holder(1004)]), select_winners(&second, &page2));
}

#[test]
fn sampled_indices_are_distinct() {
    for (population, n) in [(10u64, 9u64), (10, 10), (1, 1), (5, 0), (100_000, 1_000)] {
        let mut drawn = sample_distinct_indices(population, n);
        assert_eq!(n as usize, drawn.len());
        assert!(drawn.iter().all(|i| *i < population));
        drawn.sort();
        drawn.dedup();
        assert_eq!(n as usize, drawn.len());
    }
}
