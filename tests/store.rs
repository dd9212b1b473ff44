use gm_master::model::{InstalledTrainer, Trainer};
use gm_master::store::{
    cache_row, classify_legacy_key, get_all_keys, is_expired, lookup_cached, plan_migration,
    search_results_key, trainer_list_key, CacheItem, CacheLookup, CachedRow, LegacyEntry,
    LegacyKey, LegacyValue, PageRow, SearchRow, CACHE_EXPIRATION_TIME,
};

fn trainer(id: &str) -> Trainer {
    Trainer {
        id: id.to_string(),
        name: format!("Trainer {}", id),
        version: String::new(),
        game_version: String::new(),
        download_url: String::new(),
        description: String::new(),
        thumbnail: String::new(),
        download_count: 0,
        last_update: String::new(),
    }
}

fn installed(id: &str) -> InstalledTrainer {
    InstalledTrainer {
        id: id.to_string(),
        name: format!("Trainer {}", id),
        version: String::new(),
        game_version: String::new(),
        download_url: String::new(),
        description: String::new(),
        thumbnail: String::new(),
        download_count: 0,
        last_update: String::new(),
        installed_path: format!("/d/{}", id),
        install_time: "2024-01-01T00:00:00Z".to_string(),
        last_launch_time: None,
    }
}

#[test]
fn a_cached_page_expires_after_fifteen_minutes() {
    assert_eq!(CACHE_EXPIRATION_TIME, 15 * 60 * 1000);
    let row = cache_row("[]".to_string(), 1_000);
    assert_eq!(row.expiration, 901_000);
    assert_eq!(lookup_cached(Some(row.clone()), 1_001), CacheLookup::Hit("[]".to_string()));
    assert_eq!(lookup_cached(Some(row.clone()), 901_000), CacheLookup::Hit("[]".to_string()));
    assert_eq!(lookup_cached(Some(row), 901_001), CacheLookup::Evict);
    assert_eq!(lookup_cached(None, 5), CacheLookup::Miss);
    assert!(is_expired(10, 11));
    assert!(!is_expired(10, 10));
}

#[test]
fn cache_items_record_time_and_expiration() {
    let item = CacheItem::new_at(vec![trainer("a")], 5_000);
    assert_eq!(item.timestamp, 5_000);
    assert_eq!(item.expiration, 905_000);
    let now = CacheItem::new_now(1u8).unwrap();
    assert_eq!(now.expiration - now.timestamp, CACHE_EXPIRATION_TIME);
}

#[test]
fn keys_are_rebuilt_from_their_parts() {
    assert_eq!(trainer_list_key(0), "trainerList_0");
    assert_eq!(trainer_list_key(4294967295), "trainerList_4294967295");
    assert_eq!(search_results_key("elden ring", 3), "searchResults_elden ring_3");
}

#[test]
fn enumeration_lists_non_empty_tables_and_live_rows() {
    let pages = vec![
        PageRow { page: 1, expiration: 100 },
        PageRow { page: 2, expiration: 10 },
        PageRow { page: 12, expiration: 50 },
    ];
    let searches = vec![
        SearchRow { query: "gta".to_string(), page: 1, expiration: 100 },
        SearchRow { query: "old".to_string(), page: 1, expiration: 5 },
    ];
    assert_eq!(
        get_all_keys(3, 0, &pages, &searches, 20),
        vec!["installedTrainers", "trainerList_1", "trainerList_12", "searchResults_gta_1"]
    );
    assert_eq!(
        get_all_keys(0, 1, &vec![], &vec![], 0),
        vec!["downloadedTrainers"]
    );
    assert!(get_all_keys(0, 0, &vec![], &vec![], 0).is_empty());
}

#[test]
fn an_expired_page_is_not_listed_after_its_read() {
    let row = cache_row("[{}]".to_string(), 0);
    let read_at = CACHE_EXPIRATION_TIME + 1;
    assert_eq!(lookup_cached(Some(row.clone()), read_at), CacheLookup::Evict);
    let keys = get_all_keys(0, 0, &vec![PageRow { page: 7, expiration: row.expiration }], &vec![], read_at);
    assert!(!keys.contains(&"trainerList_7".to_string()));
}

#[test]
fn legacy_keys_are_routed_by_name_and_prefix() {
    assert_eq!(classify_legacy_key("installedTrainers"), LegacyKey::Installed);
    assert_eq!(classify_legacy_key("downloadedTrainers"), LegacyKey::Downloaded);
    assert_eq!(classify_legacy_key("trainerList_3"), LegacyKey::TrainerPage(3));
    assert_eq!(classify_legacy_key("trainerList_+7"), LegacyKey::TrainerPage(7));
    assert_eq!(classify_legacy_key("trainerList_x"), LegacyKey::Other);
    assert_eq!(classify_legacy_key("trainerList_"), LegacyKey::Other);
    assert_eq!(classify_legacy_key("trainerList_4294967296"), LegacyKey::Other);
    assert_eq!(
        classify_legacy_key("searchResults_elden_ring_2"),
        LegacyKey::SearchPage("elden_ring".to_string(), 2)
    );
    assert_eq!(
        classify_legacy_key("searchResults___gta_1"),
        LegacyKey::SearchPage("gta".to_string(), 1)
    );
    assert_eq!(classify_legacy_key("searchResults_noPage"), LegacyKey::Other);
    assert_eq!(classify_legacy_key("searchResults_q_"), LegacyKey::Other);
    assert_eq!(classify_legacy_key("theme"), LegacyKey::Other);
    assert_eq!(classify_legacy_key("installedTrainersX"), LegacyKey::Other);
}

#[test]
fn migration_keeps_records_and_drops_an_expired_entry() {
    let now = 1_000_000;
    let expired = CacheItem { data: vec![trainer("old")], timestamp: 0, expiration: now - 1 };
    let entries = vec![
        LegacyEntry { key: LegacyKey::TrainerPage(1), value: LegacyValue::Cached(expired) },
        LegacyEntry {
            key: LegacyKey::Installed,
            value: LegacyValue::Installed(vec![installed("a"), installed("b")]),
        },
    ];
    let plan = plan_migration(entries, now);
    assert_eq!(plan.installed, Some(vec![installed("a"), installed("b")]));
    assert_eq!(plan.downloaded, None);
    assert!(plan.pages.is_empty());
    assert!(plan.searches.is_empty());
}

#[test]
fn migration_keeps_live_cache_entries_in_order() {
    let now = 100;
    let live = CacheItem { data: vec![trainer("x")], timestamp: 0, expiration: 101 };
    let entries = vec![
        LegacyEntry { key: LegacyKey::SearchPage("q".to_string(), 2), value: LegacyValue::Cached(live.clone()) },
        LegacyEntry { key: LegacyKey::TrainerPage(4), value: LegacyValue::Cached(live.clone()) },
        LegacyEntry { key: LegacyKey::TrainerPage(5), value: LegacyValue::Unreadable },
        LegacyEntry { key: LegacyKey::Downloaded, value: LegacyValue::Downloaded(vec![trainer("d")]) },
        LegacyEntry { key: LegacyKey::Other, value: LegacyValue::Downloaded(vec![trainer("e")]) },
        LegacyEntry { key: LegacyKey::Installed, value: LegacyValue::Unreadable },
    ];
    let plan = plan_migration(entries, now);
    assert_eq!(plan.pages, vec![(4, live.clone())]);
    assert_eq!(plan.searches, vec![("q".to_string(), 2, live)]);
    assert_eq!(plan.downloaded, Some(vec![trainer("d")]));
    assert_eq!(plan.installed, None);
}
