use vstd::prelude::*;

use itertools::Itertools;
use rand::Rng;

use crate::address::Address;

verus! {

broadcast use vstd::seq_lib::group_to_multiset_ensures;

/// Records per page of the holder listing.
pub const PAGE_SIZE: u64 = 1000;

/// Pages past which a scan of the listing gives up.
pub const MAX_PAGES: u64 = 2000;

/// Why a holder-directory operation failed.
#[derive(Clone, Copy, Debug, PartialEq, Eq, Structural)]
pub enum HolderError {
    /// A draw asked for at least as many winners as there are holders.
    InsufficientHolders,
    /// The listing did not end within `MAX_PAGES` pages.
    TooManyPages,
    /// A fetched page lacks a record that a drawn index points to.
    MalformedPage,
}

/// The listing page (counted from 1) that holds the record at `index`.
pub open spec fn page_of(index: int) -> int {
    index / PAGE_SIZE as int + 1
}

/// The listing page (counted from 1) that holds the record at `index`.
pub fn page_of_index(index: u64) -> (r: u64)
    ensures
        r == page_of(index as int),
{
    index / PAGE_SIZE + 1
}

/// What the scan for the holder count does next.
#[derive(Clone, Copy, Debug, PartialEq, Eq, Structural)]
pub enum ScanStep {
    /// Fetch this page of the listing and report how many records it held.
    FetchPage(u64),
    /// The scan is over: this is the number of holders.
    Finished(u64),
    /// The listing runs past `MAX_PAGES` pages.
    TooManyPages,
}

/// Where a scan resumes, given the count it last found: the page that holds
/// the record just past that count.
pub open spec fn scan_start(cached: u64) -> ScanStep {
    if page_of(cached as int) < MAX_PAGES {
        ScanStep::FetchPage(page_of(cached as int) as u64)
    } else {
        ScanStep::TooManyPages
    }
}

/// The step after page `page` reported `total` records: a short page is the
/// last one.
pub open spec fn scan_next(page: u64, total: u64) -> ScanStep {
    if total < PAGE_SIZE {
        ScanStep::Finished((PAGE_SIZE * (page - 1) + total) as u64)
    } else if page + 1 < MAX_PAGES {
        ScanStep::FetchPage((page + 1) as u64)
    } else {
        ScanStep::TooManyPages
    }
}

/// The count a scan from `page` finds in a listing whose page `p` holds
/// `listing(p)` records, or `None` where it runs out of pages.
pub open spec fn scan_from(page: int, listing: spec_fn(int) -> u64) -> Option<u64>
    decreases MAX_PAGES - page,
{
    if page < 1 || page >= MAX_PAGES {
        None
    } else if listing(page) < PAGE_SIZE {
        Some((PAGE_SIZE * (page - 1) + listing(page)) as u64)
    } else {
        scan_from(page + 1, listing)
    }
}

/// One step of a scan agrees with the whole scan from its page: a finished
/// step gives the scan's count, a fetch goes on where the scan goes on, and
/// giving up means the scan finds nothing.
pub proof fn lemma_scan_step(page: u64, listing: spec_fn(int) -> u64)
    requires
        1 <= page < MAX_PAGES,
    ensures
        match scan_next(page, listing(page as int)) {
            ScanStep::Finished(c) => scan_from(page as int, listing) == Some(c),
            ScanStep::FetchPage(q) => q == page + 1 && scan_from(page as int, listing) == scan_from(
                q as int,
                listing,
            ),
            ScanStep::TooManyPages => scan_from(page as int, listing) is None,
        },
{
    assert(scan_from(page as int + 1, listing) == if page as int + 1 >= MAX_PAGES {
        None
    } else if listing(page as int + 1) < PAGE_SIZE {
        Some((PAGE_SIZE * page + listing(page as int + 1)) as u64)
    } else {
        scan_from(page as int + 2, listing)
    });
}

/// Over a listing of `full_pages` full pages and a last page of `last < PAGE_SIZE`
/// records, a scan that resumes at any page up to the last one finds
/// `PAGE_SIZE * full_pages + last` holders (the listing must end within
/// `MAX_PAGES` pages).
pub proof fn lemma_scan_counts_holders(
    full_pages: int,
    last: u64,
    start: int,
    listing: spec_fn(int) -> u64,
)
    requires
        0 <= full_pages,
        full_pages + 1 < MAX_PAGES,
        last < PAGE_SIZE,
        1 <= start <= full_pages + 1,
        forall|p: int| 1 <= p <= full_pages ==> #[trigger] listing(p) == PAGE_SIZE,
        listing(full_pages + 1) == last,
    ensures
        scan_from(start, listing) == Some((PAGE_SIZE * full_pages + last) as u64),
    decreases full_pages + 1 - start,
{
    if start < full_pages + 1 {
        assert(listing(start) == PAGE_SIZE);
        lemma_scan_counts_holders(full_pages, last, start + 1, listing);
    }
}

/// Indices into the holder listing that fall on one page.
#[derive(Clone, Debug)]
pub struct PageGroup {
    pub page: u64,
    pub indices: Vec<u64>,
}

/// The indices of all groups, in order.
pub open spec fn flatten(groups: Seq<PageGroup>) -> Seq<u64>
    decreases groups.len(),
{
    if groups.len() == 0 {
        Seq::empty()
    } else {
        flatten(groups.drop_last()) + groups.last().indices@
    }
}

/// Each group is a non-empty run of indices on its page, and neighbouring
/// groups are on different pages.
pub open spec fn groups_by_page(groups: Seq<PageGroup>) -> bool {
    &&& forall|g: int| 0 <= g < groups.len() ==> (#[trigger] groups[g]).indices@.len() > 0
    &&& forall|g: int, k: int|
        0 <= g < groups.len() && 0 <= k < groups[g].indices@.len() ==> page_of(
            #[trigger] groups[g].indices@[k] as int,
        ) == groups[g].page
    &&& forall|g: int| 0 < g < groups.len() ==> #[trigger] groups[g].page != groups[g - 1].page
}

pub open spec fn strictly_increasing(s: Seq<u64>) -> bool {
    forall|i: int, j: int| 0 <= i < j < s.len() ==> s[i] < s[j]
}

/// Each page comes in one group only: pages strictly increase along the groups.
pub open spec fn pages_increase(groups: Seq<PageGroup>) -> bool {
    forall|g: int, h: int| 0 <= g < h < groups.len() ==> groups[g].page < groups[h].page
}

/// A draw of `n` winners among `holders` holders: `n` distinct indices below
/// `holders`, in increasing order, grouped by page, one group per page.
pub open spec fn draw_plan(groups: Seq<PageGroup>, n: u64, holders: u64) -> bool {
    &&& flatten(groups).len() == n
    &&& strictly_increasing(flatten(groups))
    &&& forall|k: int| 0 <= k < n ==> #[trigger] flatten(groups)[k] < holders
    &&& groups_by_page(groups)
    &&& pages_increase(groups)
}

/// Grouping increasing indices by page gives each page one group, in increasing
/// page order.
proof fn lemma_pages_increase(groups: Seq<PageGroup>)
    requires
        groups_by_page(groups),
        strictly_increasing(flatten(groups)),
    ensures
        pages_increase(groups),
    decreases groups.len(),
{
    if groups.len() > 1 {
        let rest = groups.drop_last();
        let n = groups.len() - 1;
        let flat = flatten(groups);
        let prefix = flatten(rest);
        assert(flat == prefix + groups[n].indices@);
        assert(groups_by_page(rest)) by {
            assert forall|h: int| 0 < h < rest.len() implies #[trigger] rest[h].page != rest[h
                - 1].page by {
                assert(groups[h].page != groups[h - 1].page);
            }
        }
        assert(strictly_increasing(prefix)) by {
            assert forall|i: int, j: int| 0 <= i < j < prefix.len() implies prefix[i]
                < prefix[j] by {
                assert(flat[i] == prefix[i] && flat[j] == prefix[j]);
            }
        }
        lemma_pages_increase(rest);
        // The last index of the group before the last one precedes the first
        // index of the last group.
        let before = groups[n - 1].indices@;
        assert(prefix == flatten(rest.drop_last()) + before);
        let x = prefix[prefix.len() - 1];
        assert(x == before[before.len() - 1]);
        let y = groups[n].indices@[0];
        assert(flat[prefix.len() - 1] == x);
        assert(flat[prefix.len() as int] == y);
        assert(x < y);
        assert(page_of(x as int) == groups[n - 1].page);
        assert(page_of(y as int) == groups[n].page);
        assert(page_of(x as int) <= page_of(y as int)) by (nonlinear_arith)
            requires
                x < y,
        {}
        assert(groups[n].page != groups[n - 1].page);
        assert forall|g: int, h: int| 0 <= g < h < groups.len() implies groups[g].page
            < groups[h].page by {
            if h < n {
                assert(rest[g].page < rest[h].page);
            } else if g < n - 1 {
                assert(rest[g].page < rest[n - 1].page);
            }
        }
    }
}

/// Relies on `rand::Rng::gen_range` over the thread-local generator: a value in
/// the inclusive range `0..=bound`, which is never empty.
#[verifier::external_body]
fn random_at_most(bound: u64) -> (r: u64)
    ensures
        r <= bound,
{
    rand::thread_rng().gen_range(0..=bound)
}

/// Relies on `slice::sort_unstable`: the same values, in non-decreasing order.
#[verifier::external_body]
fn sort_indices(v: &mut Vec<u64>)
    ensures
        final(v)@.to_multiset() == old(v)@.to_multiset(),
        forall|i: int, j: int| 0 <= i < j < final(v)@.len() ==> final(v)@[i] <= final(v)@[j],
{
    v.sort_unstable();
}

/// Relies on `itertools::Itertools::group_by`: consecutive indices with the same
/// page form one group, keyed by that page, in order.
#[verifier::external_body]
fn group_by_page(indices: Vec<u64>) -> (r: Vec<PageGroup>)
    ensures
        flatten(r@) == indices@,
        groups_by_page(r@),
{
    let grouped = indices.into_iter().group_by(|i| page_of_index(*i));
    let groups = grouped.into_iter().map(|(page, idxs)| PageGroup { page, indices: idxs.collect() });
    groups.collect()
}

/// Whether `v` holds `x`.
fn contains_index(v: &Vec<u64>, x: u64) -> (r: bool)
    ensures
        r == v@.contains(x),
{
    let mut i: usize = 0;
    while i < v.len()
        invariant
            i <= v@.len(),
            forall|j: int| 0 <= j < i ==> v@[j] != x,
        decreases v@.len() - i,
    {
        if v[i] == x {
            return true;
        }
        i = i + 1;
    }
    false
}

/// Draws `n` distinct indices below `population` by Floyd's method: one random
/// draw per index, with no retries.
pub fn sample_distinct_indices(population: u64, n: u64) -> (r: Vec<u64>)
    requires
        n <= population,
    ensures
        r@.len() == n,
        r@.no_duplicates(),
        forall|k: int| 0 <= k < r@.len() ==> #[trigger] r@[k] < population,
{
    let mut chosen: Vec<u64> = Vec::new();
    let mut j: u64 = population - n;
    while j < population
        invariant
            n <= population,
            population - n <= j <= population,
            chosen@.len() == j - (population - n),
            chosen@.no_duplicates(),
            forall|k: int| 0 <= k < chosen@.len() ==> #[trigger] chosen@[k] < j,
        decreases population - j,
    {
        let t = random_at_most(j);
        let pick = if contains_index(&chosen, t) {
            j
        } else {
            t
        };
        assert(!chosen@.contains(pick)) by {
            if pick == j {
                if chosen@.contains(j) {
                    let k = choose|k: int| 0 <= k < chosen@.len() && chosen@[k] == j;
                    assert(chosen@[k] < j);
                }
            }
        }
        chosen.push(pick);
        j = j + 1;
    }
    chosen
}

/// Sorting distinct indices below `bound` leaves them strictly increasing and
/// below `bound`.
proof fn lemma_sorted_distinct(before: Seq<u64>, after: Seq<u64>, bound: u64)
    requires
        before.no_duplicates(),
        forall|k: int| 0 <= k < before.len() ==> #[trigger] before[k] < bound,
        after.to_multiset() == before.to_multiset(),
        forall|i: int, j: int| 0 <= i < j < after.len() ==> after[i] <= after[j],
    ensures
        after.len() == before.len(),
        strictly_increasing(after),
        forall|k: int| 0 <= k < after.len() ==> #[trigger] after[k] < bound,
{
    before.lemma_multiset_has_no_duplicates();
    after.lemma_multiset_has_no_duplicates_conv();
    vstd::seq_lib::to_multiset_len(before);
    vstd::seq_lib::to_multiset_len(after);
    assert forall|k: int| 0 <= k < after.len() implies #[trigger] after[k] < bound by {
        assert(after.contains(after[k]));
        vstd::seq_lib::to_multiset_contains(after, after[k]);
        vstd::seq_lib::to_multiset_contains(before, after[k]);
    }
}

/// The record that holder index `i` points to, where page `p` of the listing
/// holds `listing(p)`.
pub open spec fn record_at(listing: spec_fn(int) -> Seq<Address>, i: u64) -> Address {
    listing(page_of(i as int))[(i % PAGE_SIZE) as int]
}

/// The winners picked from the fetched pages, `pages[g]` being the page of
/// `groups[g]`: the record at each index's offset within its page, in order.
pub open spec fn winners_of(groups: Seq<PageGroup>, pages: Seq<Vec<Address>>) -> Seq<Address>
    decreases groups.len(),
{
    if groups.len() == 0 {
        Seq::empty()
    } else {
        let g = groups.len() - 1;
        winners_of(groups.drop_last(), pages) + groups.last().indices@.map_values(
            |i: u64| pages[g]@[(i % PAGE_SIZE) as int],
        )
    }
}

/// One fetched page per group, each long enough for the offsets of its indices.
pub open spec fn pages_cover(groups: Seq<PageGroup>, pages: Seq<Vec<Address>>) -> bool {
    &&& pages.len() == groups.len()
    &&& forall|g: int, k: int|
        0 <= g < groups.len() && 0 <= k < groups[g].indices@.len() ==> (
        #[trigger] groups[g].indices@[k] % PAGE_SIZE) < pages[g]@.len()
}

/// Picks the winners out of the fetched pages (`pages[g]` for `groups[g]`).
/// Fails where a page is missing or too short for an index.
pub fn select_winners(groups: &Vec<PageGroup>, pages: &Vec<Vec<Address>>) -> (r: Result<
    Vec<Address>,
    HolderError,
>)
    ensures
        r is Ok <==> pages_cover(groups@, pages@),
        r is Err ==> r == Err::<Vec<Address>, HolderError>(HolderError::MalformedPage),
        r matches Ok(w) ==> w@ == winners_of(groups@, pages@),
{
    if pages.len() != groups.len() {
        return Err(HolderError::MalformedPage);
    }
    let mut winners: Vec<Address> = Vec::new();
    let mut g: usize = 0;
    while g < groups.len()
        invariant
            pages@.len() == groups@.len(),
            g <= groups@.len(),
            winners@ == winners_of(groups@.take(g as int), pages@),
            forall|h: int, k: int|
                0 <= h < g && 0 <= k < groups@[h].indices@.len() ==> (
                #[trigger] groups@[h].indices@[k] % PAGE_SIZE) < pages@[h]@.len(),
        decreases groups@.len() - g,
    {
        let group = &groups[g];
        let page = &pages[g];
        let ghost before = winners@;
        let mut k: usize = 0;
        while k < group.indices.len()
            invariant
                g < groups@.len(),
                pages@.len() == groups@.len(),
                *group == groups@[g as int],
                *page == pages@[g as int],
                k <= group.indices@.len(),
                winners@ == before + group.indices@.take(k as int).map_values(
                    |i: u64| page@[(i % PAGE_SIZE) as int],
                ),
                forall|j: int|
                    0 <= j < k ==> (#[trigger] group.indices@[j] % PAGE_SIZE) < page@.len(),
            decreases group.indices@.len() - k,
        {
            let offset = group.indices[k] % PAGE_SIZE;
            if offset as usize >= page.len() {
                assert(!pages_cover(groups@, pages@)) by {
                    assert(groups@[g as int].indices@[k as int] % PAGE_SIZE >= pages@[g as int]@.len());
                }
                return Err(HolderError::MalformedPage);
            }
            winners.push(page[offset as usize]);
            proof {
                assert(group.indices@.take(k as int + 1) =~= group.indices@.take(k as int).push(
                    group.indices@[k as int],
                ));
                assert(winners@ =~= before + group.indices@.take(k as int + 1).map_values(
                    |i: u64| page@[(i % PAGE_SIZE) as int],
                ));
            }
            k = k + 1;
        }
        proof {
            assert(group.indices@.take(k as int) =~= group.indices@);
            assert(groups@.take(g as int + 1).drop_last() =~= groups@.take(g as int));
        }
        g = g + 1;
    }
    assert(groups@.take(g as int) =~= groups@);
    Ok(winners)
}

/// Picking from the pages the listing holds gives, for each drawn index, the
/// record that index points to.
proof fn lemma_winners_are_records(
    groups: Seq<PageGroup>,
    pages: Seq<Vec<Address>>,
    listing: spec_fn(int) -> Seq<Address>,
)
    requires
        groups_by_page(groups),
        pages.len() >= groups.len(),
        forall|g: int| 0 <= g < groups.len() ==> (#[trigger] pages[g])@ == listing(
            groups[g].page as int,
        ),
    ensures
        winners_of(groups, pages) == flatten(groups).map_values(|i: u64| record_at(listing, i)),
    decreases groups.len(),
{
    if groups.len() > 0 {
        let g = groups.len() - 1;
        let rest = groups.drop_last();
        assert(groups_by_page(rest)) by {
            assert forall|h: int| 0 < h < rest.len() implies #[trigger] rest[h].page != rest[h
                - 1].page by {
                assert(groups[h].page != groups[h - 1].page);
            }
        }
        assert forall|h: int| 0 <= h < rest.len() implies (#[trigger] pages[h])@ == listing(
            rest[h].page as int,
        ) by {
            assert(pages[h]@ == listing(groups[h].page as int));
        }
        lemma_winners_are_records(rest, pages, listing);
        let last = groups.last().indices@;
        assert(pages[g]@ == listing(groups[g].page as int));
        assert(last.map_values(|i: u64| pages[g]@[(i % PAGE_SIZE) as int]) =~= last.map_values(
            |i: u64| record_at(listing, i),
        )) by {
            assert forall|k: int| 0 <= k < last.len() implies page_of(last[k] as int)
                == groups[g].page by {
                assert(page_of(groups[g].indices@[k] as int) == groups[g].page);
            }
        }
        assert(flatten(groups).map_values(|i: u64| record_at(listing, i)) =~= flatten(
            rest,
        ).map_values(|i: u64| record_at(listing, i)) + last.map_values(
            |i: u64| record_at(listing, i),
        ));
    }
}

/// A draw of `n` winners among `holders` holders, picked from the pages the
/// listing holds, gives exactly `n` winners, each the record of a distinct
/// index below `holders`.
pub proof fn lemma_draw_gives_holders(
    groups: Seq<PageGroup>,
    pages: Seq<Vec<Address>>,
    listing: spec_fn(int) -> Seq<Address>,
    n: u64,
    holders: u64,
)
    requires
        draw_plan(groups, n, holders),
        pages_cover(groups, pages),
        forall|g: int| 0 <= g < groups.len() ==> (#[trigger] pages[g])@ == listing(
            groups[g].page as int,
        ),
    ensures
        winners_of(groups, pages).len() == n,
        forall|k: int|
            0 <= k < n ==> flatten(groups)[k] < holders && #[trigger] winners_of(groups, pages)[k]
                == record_at(listing, flatten(groups)[k]),
        strictly_increasing(flatten(groups)),
{
    lemma_winners_are_records(groups, pages, listing);
}

/// A refresh that resumes from a cached count on or before the listing's last
/// page finds every holder of a listing of `full_pages` full pages and a last
/// page of `last < PAGE_SIZE` records (the listing must end within
/// `MAX_PAGES` pages).
pub proof fn lemma_refresh_finds_count(
    cached: u64,
    full_pages: int,
    last: u64,
    listing: spec_fn(int) -> u64,
)
    requires
        0 <= full_pages,
        full_pages + 1 < MAX_PAGES,
        last < PAGE_SIZE,
        page_of(cached as int) <= full_pages + 1,
        forall|p: int| 1 <= p <= full_pages ==> #[trigger] listing(p) == PAGE_SIZE,
        listing(full_pages + 1) == last,
    ensures
        scan_start(cached) == ScanStep::FetchPage(page_of(cached as int) as u64),
        scan_from(page_of(cached as int), listing) == Some((PAGE_SIZE * full_pages + last) as u64),
{
    lemma_scan_counts_holders(full_pages, last, page_of(cached as int), listing);
}

/// The holder directory of one marker mint: the mint and the last holder count
/// found for it.
#[derive(Clone, Copy, Debug)]
pub struct HeliusClient {
    mint: Address,
    holders_number: u64,
}

impl HeliusClient {
    pub closed spec fn spec_holders_number(&self) -> u64 {
        self.holders_number
    }

    pub closed spec fn spec_mint(&self) -> Address {
        self.mint
    }

    /// The marker mint whose holders this directory counts.
    pub fn mint(&self) -> (r: Address)
        ensures
            r == self.spec_mint(),
    {
        self.mint
    }

    /// A directory for `mint` that starts from the stored count, or from 0.
    pub fn new(mint: Address, stored: Option<u64>) -> (r: HeliusClient)
        ensures
            r.spec_mint() == mint,
            r.spec_holders_number() == match stored {
                Some(c) => c,
                None => 0,
            },
    {
        let holders_number = match stored {
            Some(c) => c,
            None => 0,
        };
        HeliusClient { mint, holders_number }
    }

    /// The last holder count found.
    pub fn holders_number(&self) -> (r: u64)
        ensures
            r == self.spec_holders_number(),
    {
        self.holders_number
    }

    /// Replaces the cached count with a freshly found one.
    pub fn update_token_holders_number(&mut self, discovered: u64)
        ensures
            final(self).spec_holders_number() == discovered,
            final(self).spec_mint() == old(self).spec_mint(),
    {
        self.holders_number = discovered;
    }

    /// The first step of a scan for the holder count: it resumes at the page
    /// implied by the cached count.
    pub fn discovery_start(&self) -> (r: ScanStep)
        ensures
            r == scan_start(self.spec_holders_number()),
    {
        let page = page_of_index(self.holders_number);
        if page < MAX_PAGES {
            ScanStep::FetchPage(page)
        } else {
            ScanStep::TooManyPages
        }
    }

    /// The step after page `page` of the listing reported `total` records.
    pub fn discovery_step(page: u64, total: u64) -> (r: ScanStep)
        requires
            1 <= page < MAX_PAGES,
        ensures
            r == scan_next(page, total),
    {
        if total < PAGE_SIZE {
            ScanStep::Finished(PAGE_SIZE * (page - 1) + total)
        } else if page + 1 < MAX_PAGES {
            ScanStep::FetchPage(page + 1)
        } else {
            ScanStep::TooManyPages
        }
    }

    /// Draws `n` distinct holder indices and groups them by listing page, so
    /// that each page is fetched once. Fails unless `n` is below the holder count.
    pub fn draw_winners(&self, n: u64) -> (r: Result<Vec<PageGroup>, HolderError>)
        ensures
            r is Err <==> n >= self.spec_holders_number(),
            r is Err ==> r == Err::<Vec<PageGroup>, HolderError>(
                HolderError::InsufficientHolders,
            ),
            r matches Ok(groups) ==> draw_plan(groups@, n, self.spec_holders_number()),
    {
        if n >= self.holders_number {
            return Err(HolderError::InsufficientHolders);
        }
        let mut indices = sample_distinct_indices(self.holders_number, n);
        let ghost drawn = indices@;
        sort_indices(&mut indices);
        proof {
            lemma_sorted_distinct(drawn, indices@, self.holders_number);
        }
        let groups = group_by_page(indices);
        proof {
            lemma_pages_increase(groups@);
        }
        Ok(groups)
    }
}

} // verus!
