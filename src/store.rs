//! The rules of the persistent store: when cached pages expire, what a
//! cache read does, which keys the store reports, and how a legacy key-value
//! snapshot is routed into the tables.
use vstd::prelude::*;
use crate::clock::now_millis;
use crate::model::{InstalledTrainer, Trainer};
use crate::text::{
    chars_of, decimal, find_last, last_index_of, lemma_decimal_value, occurs_at_exec, parse_u32,
    parses_as_u32, push_decimal, slice_chars, string_of,
};

verus! {

pub const INSTALLED_TRAINERS_KEY: &'static str = "installedTrainers";
pub const DOWNLOADED_TRAINERS_KEY: &'static str = "downloadedTrainers";
pub const TRAINER_LIST_PREFIX: &'static str = "trainerList_";
pub const SEARCH_RESULTS_PREFIX: &'static str = "searchResults_";

/// How long a cached page stays valid: 15 minutes, in milliseconds.
pub const CACHE_EXPIRATION_TIME: i64 = 900000;

pub open spec fn installed_key() -> Seq<char> {
    seq!['i', 'n', 's', 't', 'a', 'l', 'l', 'e', 'd', 'T', 'r', 'a', 'i', 'n', 'e', 'r', 's']
}

pub open spec fn downloaded_key() -> Seq<char> {
    seq!['d', 'o', 'w', 'n', 'l', 'o', 'a', 'd', 'e', 'd', 'T', 'r', 'a', 'i', 'n', 'e', 'r', 's']
}

pub open spec fn list_prefix() -> Seq<char> {
    seq!['t', 'r', 'a', 'i', 'n', 'e', 'r', 'L', 'i', 's', 't', '_']
}

pub open spec fn search_prefix() -> Seq<char> {
    seq!['s', 'e', 'a', 'r', 'c', 'h', 'R', 'e', 's', 'u', 'l', 't', 's', '_']
}

/// The key of the cached listing page `page`.
pub open spec fn page_key(page: u32) -> Seq<char> {
    list_prefix() + decimal(page as nat)
}

/// The key of the cached search results for `query` on page `page`.
pub open spec fn search_key(query: Seq<char>, page: u32) -> Seq<char> {
    search_prefix() + query + seq!['_'] + decimal(page as nat)
}

/// An entry that expires at `expiration` is stale at `now` once `now` is past it.
pub open spec fn is_stale(expiration: i64, now: i64) -> bool {
    expiration < now
}

/// A cached payload with the time it was stored and the time it expires.
#[derive(Clone, Debug, PartialEq, Eq)]
pub struct CacheItem<T> {
    pub data: T,
    pub timestamp: i64,
    pub expiration: i64,
}

impl<T> CacheItem<T> {
    /// `data` cached at `now`, expiring 15 minutes later.
    pub fn new_at(data: T, now: i64) -> (r: CacheItem<T>)
        requires
            now <= i64::MAX - CACHE_EXPIRATION_TIME,
        ensures
            r.data == data,
            r.timestamp == now,
            r.expiration == now + CACHE_EXPIRATION_TIME,
    {
        CacheItem { data, timestamp: now, expiration: now + CACHE_EXPIRATION_TIME }
    }

    /// `data` cached now, or nothing if the clock reads so late that the
    /// expiration cannot be represented.
    pub fn new_now(data: T) -> (r: Option<CacheItem<T>>)
        ensures
            r is Some ==> r->0.data == data && r->0.expiration == r->0.timestamp + CACHE_EXPIRATION_TIME,
    {
        let now = now_millis();
        if now <= i64::MAX - CACHE_EXPIRATION_TIME {
            Some(CacheItem::new_at(data, now))
        } else {
            None
        }
    }
}

/// A row of a cache table as stored: the serialised payload and when it expires.
#[derive(Clone, Debug, PartialEq, Eq)]
pub struct CachedRow {
    pub data: String,
    pub expiration: i64,
}

/// What a cache read comes to.
#[derive(Clone, Debug, PartialEq, Eq)]
pub enum CacheLookup {
    /// The entry is live: here is its payload.
    Hit(String),
    /// There is no entry.
    Miss,
    /// The entry is stale: delete its row, and report that there is none.
    Evict,
}

/// What reading the row `row` at `now` comes to.
pub open spec fn lookup_of(row: Option<CachedRow>, now: i64) -> CacheLookup {
    match row {
        None => CacheLookup::Miss,
        Some(r) => if is_stale(r.expiration, now) { CacheLookup::Evict } else { CacheLookup::Hit(r.data) },
    }
}

/// The row that caching `data` at `now` writes.
pub fn cache_row(data: String, now: i64) -> (r: CachedRow)
    requires
        now <= i64::MAX - CACHE_EXPIRATION_TIME,
    ensures
        r.data == data,
        r.expiration == now + CACHE_EXPIRATION_TIME,
{
    CachedRow { data, expiration: now + CACHE_EXPIRATION_TIME }
}

/// What reading the row `row` at `now` comes to: nothing without a row, an
/// eviction for a stale row, its payload otherwise.
pub fn lookup_cached(row: Option<CachedRow>, now: i64) -> (r: CacheLookup)
    ensures
        r == lookup_of(row, now),
{
    match row {
        None => CacheLookup::Miss,
        Some(r) => {
            if r.expiration < now {
                CacheLookup::Evict
            } else {
                CacheLookup::Hit(r.data)
            }
        },
    }
}

/// Whether an entry that expires at `expiration` is stale at `now`; the
/// sweep deletes exactly these rows.
pub fn is_expired(expiration: i64, now: i64) -> (r: bool)
    ensures
        r == is_stale(expiration, now),
{
    expiration < now
}

/// The key of the cached listing page `page`.
pub fn trainer_list_key(page: u32) -> (r: String)
    ensures
        r@ == page_key(page),
{
    let mut r = String::from_str(TRAINER_LIST_PREFIX);
    proof {
        reveal_strlit("trainerList_");
        assert(r@ =~= list_prefix());
    }
    push_decimal(&mut r, page as u64);
    r
}

/// The key of the cached search results for `query` on page `page`.
pub fn search_results_key(query: &str, page: u32) -> (r: String)
    ensures
        r@ == search_key(query@, page),
{
    let mut r = String::from_str(SEARCH_RESULTS_PREFIX).concat(query).concat("_");
    proof {
        reveal_strlit("searchResults_");
        reveal_strlit("_");
        assert(r@ =~= search_prefix() + query@ + seq!['_']);
    }
    push_decimal(&mut r, page as u64);
    r
}

/// A listing-cache row as enumerated: its page and when it expires.
#[derive(Clone, Copy, Debug, PartialEq, Eq)]
pub struct PageRow {
    pub page: u32,
    pub expiration: i64,
}

/// A search-cache row as enumerated: its query, its page and when it expires.
#[derive(Clone, Debug, PartialEq, Eq)]
pub struct SearchRow {
    pub query: String,
    pub page: u32,
    pub expiration: i64,
}

/// The keys of the rows of `rows` that are live at `now`, in order.
pub open spec fn live_page_keys(rows: Seq<PageRow>, now: i64) -> Seq<Seq<char>>
    decreases rows.len(),
{
    if rows.len() == 0 {
        Seq::empty()
    } else {
        let k = live_page_keys(rows.drop_last(), now);
        if is_stale(rows.last().expiration, now) { k } else { k.push(page_key(rows.last().page)) }
    }
}

/// The keys of the rows of `rows` that are live at `now`, in order.
pub open spec fn live_search_keys(rows: Seq<SearchRow>, now: i64) -> Seq<Seq<char>>
    decreases rows.len(),
{
    if rows.len() == 0 {
        Seq::empty()
    } else {
        let k = live_search_keys(rows.drop_last(), now);
        if is_stale(rows.last().expiration, now) {
            k
        } else {
            k.push(search_key(rows.last().query@, rows.last().page))
        }
    }
}

/// Every key the store reports at `now`: the installed-records key if that
/// table has rows, the downloaded-records key if that one has, then the key
/// of each live listing row and of each live search row.
pub open spec fn all_keys(
    installed_count: u64,
    downloaded_count: u64,
    pages: Seq<PageRow>,
    searches: Seq<SearchRow>,
    now: i64,
) -> Seq<Seq<char>> {
    (if installed_count > 0 { seq![installed_key()] } else { Seq::empty() })
        + (if downloaded_count > 0 { seq![downloaded_key()] } else { Seq::empty() })
        + live_page_keys(pages, now)
        + live_search_keys(searches, now)
}

pub open spec fn views_of(v: Seq<String>) -> Seq<Seq<char>> {
    v.map_values(|s: String| s@)
}

/// The keys the store reports at `now`, given the row counts of the record
/// tables and the rows of the cache tables.
pub fn get_all_keys(
    installed_count: u64,
    downloaded_count: u64,
    pages: &Vec<PageRow>,
    searches: &Vec<SearchRow>,
    now: i64,
) -> (r: Vec<String>)
    ensures
        views_of(r@) == all_keys(installed_count, downloaded_count, pages@, searches@, now),
{
    let mut keys: Vec<String> = Vec::new();
    let ghost head: Seq<Seq<char>> = (if installed_count > 0 { seq![installed_key()] } else { Seq::empty() })
        + (if downloaded_count > 0 { seq![downloaded_key()] } else { Seq::empty() });
    if installed_count > 0 {
        let k = String::from_str(INSTALLED_TRAINERS_KEY);
        proof { reveal_strlit("installedTrainers"); }
        assert(k@ =~= installed_key());
        keys.push(k);
    }
    if downloaded_count > 0 {
        let k = String::from_str(DOWNLOADED_TRAINERS_KEY);
        proof { reveal_strlit("downloadedTrainers"); }
        assert(k@ =~= downloaded_key());
        keys.push(k);
    }
    assert(views_of(keys@) =~= head);
    let mut i: usize = 0;
    while i < pages.len()
        invariant
            i <= pages@.len(),
            views_of(keys@) == head + live_page_keys(pages@.subrange(0, i as int), now),
        decreases pages@.len() - i,
    {
        let row = pages[i];
        let ghost before = keys@;
        assert(pages@.subrange(0, i + 1).drop_last() =~= pages@.subrange(0, i as int));
        if !is_expired(row.expiration, now) {
            keys.push(trainer_list_key(row.page));
            assert(views_of(keys@) =~= views_of(before).push(page_key(row.page)));
        }
        i = i + 1;
    }
    assert(pages@.subrange(0, pages@.len() as int) =~= pages@);
    let ghost mid = views_of(keys@);
    let mut j: usize = 0;
    while j < searches.len()
        invariant
            j <= searches@.len(),
            mid == head + live_page_keys(pages@, now),
            views_of(keys@) == mid + live_search_keys(searches@.subrange(0, j as int), now),
        decreases searches@.len() - j,
    {
        let row = &searches[j];
        let ghost before = keys@;
        assert(searches@.subrange(0, j + 1).drop_last() =~= searches@.subrange(0, j as int));
        if !is_expired(row.expiration, now) {
            keys.push(search_results_key(row.query.as_str(), row.page));
            assert(views_of(keys@) =~= views_of(before).push(search_key(row.query@, row.page)));
        }
        j = j + 1;
    }
    assert(searches@.subrange(0, searches@.len() as int) =~= searches@);
    keys
}

// ---- laws of the cache ----

proof fn lemma_decimal_injective(a: nat, b: nat)
    requires
        decimal(a) == decimal(b),
    ensures
        a == b,
{
    lemma_decimal_value(a);
    lemma_decimal_value(b);
}

proof fn lemma_live_page_keys_skip(rows: Seq<PageRow>, page: u32, now: i64)
    requires
        forall|i: int| 0 <= i < rows.len() && (#[trigger] rows[i]).page == page
            ==> is_stale(rows[i].expiration, now),
    ensures
        !live_page_keys(rows, now).contains(page_key(page)),
    decreases rows.len(),
{
    if rows.len() > 0 {
        let init = rows.drop_last();
        assert forall|i: int| 0 <= i < init.len() && (#[trigger] init[i]).page == page
            implies is_stale(init[i].expiration, now) by {
            assert(init[i] == rows[i]);
        };
        lemma_live_page_keys_skip(init, page, now);
        let last = rows.last();
        if !is_stale(last.expiration, now) {
            let k = live_page_keys(init, now);
            assert(last.page != page);
            if page_key(last.page) == page_key(page) {
                assert(decimal(last.page as nat) =~= page_key(last.page).subrange(12, page_key(last.page).len() as int));
                assert(decimal(page as nat) =~= page_key(page).subrange(12, page_key(page).len() as int));
                lemma_decimal_injective(last.page as nat, page as nat);
            }
            assert forall|x: Seq<char>| k.push(page_key(last.page)).contains(x) implies x != page_key(page) by {
                let idx = choose|idx: int| 0 <= idx < k.push(page_key(last.page)).len()
                    && k.push(page_key(last.page))[idx] == x;
                if idx < k.len() {
                    assert(k[idx] == x);
                }
            };
        }
    }
}

proof fn lemma_live_search_keys_not_page(rows: Seq<SearchRow>, page: u32, now: i64)
    ensures
        !live_search_keys(rows, now).contains(page_key(page)),
    decreases rows.len(),
{
    if rows.len() > 0 {
        lemma_live_search_keys_not_page(rows.drop_last(), page, now);
        let k = live_search_keys(rows.drop_last(), now);
        if !is_stale(rows.last().expiration, now) {
            let sk = search_key(rows.last().query@, rows.last().page);
            assert(sk[0] == 's' && page_key(page)[0] == 't');
            assert forall|x: Seq<char>| k.push(sk).contains(x) implies x != page_key(page) by {
                let idx = choose|idx: int| 0 <= idx < k.push(sk).len() && k.push(sk)[idx] == x;
                if idx < k.len() {
                    assert(k[idx] == x);
                }
            };
        }
    }
}

/// A page cached at `written_at` reads back as its payload until its
/// expiration, 15 minutes later. Read after that, it is evicted, and the keys
/// the store then reports do not list it (its page has that one row, as the
/// table is keyed by page).
pub proof fn lemma_cache_write_then_read(
    data: String,
    written_at: i64,
    read_at: i64,
    installed_count: u64,
    downloaded_count: u64,
    pages: Seq<PageRow>,
    searches: Seq<SearchRow>,
    page: u32,
)
    requires
        written_at <= i64::MAX - CACHE_EXPIRATION_TIME,
        written_at <= read_at,
        forall|i: int| 0 <= i < pages.len() && (#[trigger] pages[i]).page == page
            ==> pages[i].expiration == written_at + CACHE_EXPIRATION_TIME,
    ensures
        read_at <= written_at + CACHE_EXPIRATION_TIME ==> lookup_of(
            Some(CachedRow { data, expiration: (written_at + CACHE_EXPIRATION_TIME) as i64 }),
            read_at,
        ) == CacheLookup::Hit(data),
        read_at > written_at + CACHE_EXPIRATION_TIME ==> lookup_of(
            Some(CachedRow { data, expiration: (written_at + CACHE_EXPIRATION_TIME) as i64 }),
            read_at,
        ) == CacheLookup::Evict && !all_keys(installed_count, downloaded_count, pages, searches, read_at)
            .contains(page_key(page)),
{
    if read_at > written_at + CACHE_EXPIRATION_TIME {
        lemma_live_page_keys_skip(pages, page, read_at);
        lemma_live_search_keys_not_page(searches, page, read_at);
        let a = if installed_count > 0 { seq![installed_key()] } else { Seq::<Seq<char>>::empty() };
        let b = if downloaded_count > 0 { seq![downloaded_key()] } else { Seq::<Seq<char>>::empty() };
        let c = live_page_keys(pages, read_at);
        let d = live_search_keys(searches, read_at);
        let all = all_keys(installed_count, downloaded_count, pages, searches, read_at);
        assert(all == a + b + c + d);
        let pk = page_key(page);
        assert(pk[0] == 't');
        assert forall|idx: int| 0 <= idx < all.len() implies all[idx] != pk by {
            if idx < a.len() {
                assert(all[idx] == installed_key());
                assert(installed_key()[0] == 'i');
            } else if idx < a.len() + b.len() {
                assert(all[idx] == downloaded_key());
                assert(downloaded_key()[0] == 'd');
            } else if idx < a.len() + b.len() + c.len() {
                assert(all[idx] == c[idx - a.len() - b.len()]);
            } else {
                assert(all[idx] == d[idx - a.len() - b.len() - c.len()]);
            }
        };
    }
}

// ---- migration from the legacy key-value snapshot ----

/// Where a key of the legacy snapshot belongs.
#[derive(Clone, Debug, PartialEq, Eq)]
pub enum LegacyKey {
    Installed,
    Downloaded,
    TrainerPage(u32),
    SearchPage(String, u32),
    /// Not a key of the store, or one whose page does not parse.
    Other,
}

pub open spec fn starts_with(s: Seq<char>, p: Seq<char>) -> bool {
    s.len() >= p.len() && s.subrange(0, p.len() as int) == p
}

/// `s` without its leading underscores.
pub open spec fn trim_underscores(s: Seq<char>) -> Seq<char>
    decreases s.len(),
{
    if s.len() > 0 && s[0] == '_' { trim_underscores(s.drop_first()) } else { s }
}

/// `r` is where the legacy key `key` belongs: the two record keys by name; a
/// listing key by the page after its prefix; a search key by the page after
/// its last `_` and the query before it, stripped of leading underscores.
pub open spec fn routes_to(key: Seq<char>, r: LegacyKey) -> bool {
    if key == installed_key() {
        r is Installed
    } else if key == downloaded_key() {
        r is Downloaded
    } else if starts_with(key, list_prefix()) {
        match parses_as_u32(key.subrange(12, key.len() as int)) {
            Some(p) => r == LegacyKey::TrainerPage(p),
            None => r is Other,
        }
    } else if starts_with(key, search_prefix()) {
        let rest = key.subrange(14, key.len() as int);
        let u = last_index_of(rest, '_');
        if u < 0 {
            r is Other
        } else {
            match parses_as_u32(rest.subrange(u + 1, rest.len() as int)) {
                Some(p) => r is SearchPage && r->SearchPage_0@ == trim_underscores(rest.subrange(0, u))
                    && r->SearchPage_1 == p,
                None => r is Other,
            }
        }
    } else {
        r is Other
    }
}

fn trim_leading_underscores(s: &Vec<char>) -> (r: Vec<char>)
    ensures
        r@ == trim_underscores(s@),
{
    let n = s.len();
    let mut lo: usize = 0;
    assert(s@.subrange(0, n as int) =~= s@);
    while lo < n && s[lo] == '_'
        invariant
            n == s@.len(),
            lo <= n,
            trim_underscores(s@) == trim_underscores(s@.subrange(lo as int, n as int)),
        decreases n - lo,
    {
        assert(s@.subrange(lo as int, n as int).drop_first() =~= s@.subrange(lo + 1, n as int));
        lo = lo + 1;
    }
    slice_chars(s, lo, n)
}

/// Where the legacy key `key` belongs.
pub fn classify_legacy_key(key: &str) -> (r: LegacyKey)
    ensures
        routes_to(key@, r),
{
    let k = chars_of(key);
    let installed = chars_of(INSTALLED_TRAINERS_KEY);
    let downloaded = chars_of(DOWNLOADED_TRAINERS_KEY);
    let list = chars_of(TRAINER_LIST_PREFIX);
    let search = chars_of(SEARCH_RESULTS_PREFIX);
    proof {
        reveal_strlit("installedTrainers");
        reveal_strlit("downloadedTrainers");
        reveal_strlit("trainerList_");
        reveal_strlit("searchResults_");
        assert(installed@ =~= installed_key());
        assert(downloaded@ =~= downloaded_key());
        assert(list@ =~= list_prefix());
        assert(search@ =~= search_prefix());
        assert(k@.subrange(0, k@.len() as int) =~= k@);
    }
    if k.len() == installed.len() && occurs_at_exec(&k, 0, &installed) {
        return LegacyKey::Installed;
    }
    assert(k@ != installed_key());
    if k.len() == downloaded.len() && occurs_at_exec(&k, 0, &downloaded) {
        return LegacyKey::Downloaded;
    }
    assert(k@ != downloaded_key());
    if occurs_at_exec(&k, 0, &list) {
        let digits = slice_chars(&k, 12, k.len());
        return match parse_u32(&digits) {
            Some(p) => LegacyKey::TrainerPage(p),
            None => LegacyKey::Other,
        };
    }
    if occurs_at_exec(&k, 0, &search) {
        let rest = slice_chars(&k, 14, k.len());
        return match find_last(&rest, '_') {
            None => LegacyKey::Other,
            Some(u) => {
                let digits = slice_chars(&rest, u + 1, rest.len());
                match parse_u32(&digits) {
                    Some(p) => {
                        let query = slice_chars(&rest, 0, u);
                        let trimmed = trim_leading_underscores(&query);
                        LegacyKey::SearchPage(string_of(&trimmed), p)
                    },
                    None => LegacyKey::Other,
                }
            },
        };
    }
    LegacyKey::Other
}

/// A legacy value, decoded as the type its key calls for.
#[derive(Clone, Debug, PartialEq, Eq)]
pub enum LegacyValue {
    Installed(Vec<InstalledTrainer>),
    Downloaded(Vec<Trainer>),
    Cached(CacheItem<Vec<Trainer>>),
    /// The value does not decode as the type its key calls for.
    Unreadable,
}

/// One entry of the legacy snapshot: where its key belongs, and its value.
#[derive(Clone, Debug, PartialEq, Eq)]
pub struct LegacyEntry {
    pub key: LegacyKey,
    pub value: LegacyValue,
}

/// What a migration writes: the record lists that replace the tables, if
/// any, and the cache entries to store.
#[derive(Clone, Debug, PartialEq, Eq)]
pub struct MigrationPlan {
    pub installed: Option<Vec<InstalledTrainer>>,
    pub downloaded: Option<Vec<Trainer>>,
    pub pages: Vec<(u32, CacheItem<Vec<Trainer>>)>,
    pub searches: Vec<(String, u32, CacheItem<Vec<Trainer>>)>,
}

/// The installed list of the last readable installed-records entry.
pub open spec fn last_installed(es: Seq<LegacyEntry>) -> Option<Vec<InstalledTrainer>>
    decreases es.len(),
{
    if es.len() == 0 {
        None
    } else {
        match (es.last().key, es.last().value) {
            (LegacyKey::Installed, LegacyValue::Installed(v)) => Some(v),
            _ => last_installed(es.drop_last()),
        }
    }
}

/// The downloaded list of the last readable downloaded-records entry.
pub open spec fn last_downloaded(es: Seq<LegacyEntry>) -> Option<Vec<Trainer>>
    decreases es.len(),
{
    if es.len() == 0 {
        None
    } else {
        match (es.last().key, es.last().value) {
            (LegacyKey::Downloaded, LegacyValue::Downloaded(v)) => Some(v),
            _ => last_downloaded(es.drop_last()),
        }
    }
}

/// The readable listing entries still live at `now`, in order.
pub open spec fn kept_pages(es: Seq<LegacyEntry>, now: i64) -> Seq<(u32, CacheItem<Vec<Trainer>>)>
    decreases es.len(),
{
    if es.len() == 0 {
        Seq::empty()
    } else {
        let k = kept_pages(es.drop_last(), now);
        match (es.last().key, es.last().value) {
            (LegacyKey::TrainerPage(p), LegacyValue::Cached(item)) =>
                if item.expiration > now { k.push((p, item)) } else { k },
            _ => k,
        }
    }
}

/// The readable search entries still live at `now`, in order.
pub open spec fn kept_searches(es: Seq<LegacyEntry>, now: i64) -> Seq<(String, u32, CacheItem<Vec<Trainer>>)>
    decreases es.len(),
{
    if es.len() == 0 {
        Seq::empty()
    } else {
        let k = kept_searches(es.drop_last(), now);
        match (es.last().key, es.last().value) {
            (LegacyKey::SearchPage(q, p), LegacyValue::Cached(item)) =>
                if item.expiration > now { k.push((q, p, item)) } else { k },
            _ => k,
        }
    }
}

/// Routes each legacy entry: a readable record list replaces its table (the
/// last one wins), a readable cache entry still live at `now` is kept, and
/// everything else is dropped.
pub fn plan_migration(entries: Vec<LegacyEntry>, now: i64) -> (r: MigrationPlan)
    ensures
        r.installed == last_installed(entries@),
        r.downloaded == last_downloaded(entries@),
        r.pages@ == kept_pages(entries@, now),
        r.searches@ == kept_searches(entries@, now),
{
    let ghost orig = entries@;
    let ghost n = orig.len();
    let mut rest = entries;
    let mut plan = MigrationPlan { installed: None, downloaded: None, pages: Vec::new(), searches: Vec::new() };
    while rest.len() > 0
        invariant
            n == orig.len(),
            rest@.len() <= n,
            rest@ == orig.subrange(n - rest@.len(), n as int),
            plan.installed == last_installed(orig.subrange(0, n - rest@.len())),
            plan.downloaded == last_downloaded(orig.subrange(0, n - rest@.len())),
            plan.pages@ == kept_pages(orig.subrange(0, n - rest@.len()), now),
            plan.searches@ == kept_searches(orig.subrange(0, n - rest@.len()), now),
        decreases rest@.len(),
    {
        let ghost k = n - rest@.len();
        let e = rest.remove(0);
        assert(rest@ =~= orig.subrange(k + 1, n as int));
        assert(orig.subrange(0, k + 1).drop_last() =~= orig.subrange(0, k));
        assert(orig.subrange(0, k + 1).last() == e);
        match (e.key, e.value) {
            (LegacyKey::Installed, LegacyValue::Installed(v)) => {
                plan.installed = Some(v);
            },
            (LegacyKey::Downloaded, LegacyValue::Downloaded(v)) => {
                plan.downloaded = Some(v);
            },
            (LegacyKey::TrainerPage(p), LegacyValue::Cached(item)) => {
                if item.expiration > now {
                    plan.pages.push((p, item));
                }
            },
            (LegacyKey::SearchPage(q, p), LegacyValue::Cached(item)) => {
                if item.expiration > now {
                    plan.searches.push((q, p, item));
                }
            },
            _ => {},
        }
    }
    assert(orig.subrange(0, n as int) =~= orig);
    plan
}

} // verus!
