use uptimers::model::{SiteFactModel, SiteModel};
use uptimers::store::FactStore;
use uptimers::timestamp::Timestamp;

fn minute(m: u64) -> Timestamp {
    Timestamp { secs: m * 60, nanos: 0 }
}

fn fact_at(site: &str, m: u64, success: bool, status_code: i16) -> SiteFactModel {
    SiteFactModel { site: site.to_string(), tstamp: minute(m), success, status_code }
}

#[test]
fn truncation_drops_seconds_and_nanos() {
    let t = Timestamp::truncate_to_minute(3725, 123_456_789);
    assert_eq!(t.secs, 3720);
    assert_eq!(t.nanos, 0);
    let exact = Timestamp::truncate_to_minute(7200, 0);
    assert_eq!(exact.secs, 7200);
    assert_eq!(exact.nanos, 0);
}

#[test]
fn duplicate_insert_is_a_silent_no_op() {
    let mut store = FactStore::new();
    let first = store.insert_fact_if_absent(fact_at("https://a.example", 10, true, 200));
    assert!(first);
    // Same (site, timestamp) key, different payload: ignored, not an error.
    let second = store.insert_fact_if_absent(fact_at("https://a.example", 10, false, 500));
    assert!(!second);
    assert_eq!(store.facts.len(), 1);
    assert!(store.facts[0].success);
    assert_eq!(store.facts[0].status_code, 200);
}

#[test]
fn same_site_new_minute_is_recorded() {
    let mut store = FactStore::new();
    assert!(store.insert_fact_if_absent(fact_at("https://a.example", 10, true, 200)));
    assert!(store.insert_fact_if_absent(fact_at("https://a.example", 11, false, 502)));
    assert_eq!(store.facts.len(), 2);
}

#[test]
fn last_fact_picks_greatest_timestamp() {
    let mut store = FactStore::new();
    store.insert_fact_if_absent(fact_at("https://a.example", 10, true, 200));
    store.insert_fact_if_absent(fact_at("https://a.example", 12, false, 502));
    store.insert_fact_if_absent(fact_at("https://a.example", 11, true, 204));
    store.insert_fact_if_absent(fact_at("https://b.example", 13, true, 200));
    let last = store.last_fact("https://a.example").expect("a.example has facts");
    assert_eq!(last.tstamp, minute(12));
    assert!(!last.success);
    assert_eq!(last.status_code, 502);
}

#[test]
fn last_fact_of_unknown_site_is_none() {
    let mut store = FactStore::new();
    store.insert_fact_if_absent(fact_at("https://a.example", 10, true, 200));
    assert!(store.last_fact("https://b.example").is_none());
}

#[test]
fn upsert_replaces_display_name() {
    let mut store = FactStore::new();
    store.upsert_site(SiteModel {
        site: "https://a.example".to_string(),
        name: "Alpha".to_string(),
    });
    store.upsert_site(SiteModel {
        site: "https://b.example".to_string(),
        name: "Beta".to_string(),
    });
    store.upsert_site(SiteModel {
        site: "https://a.example".to_string(),
        name: "Alpha prod".to_string(),
    });
    assert_eq!(store.sites.len(), 2);
    let a = store.find_site("https://a.example").expect("a.example is present");
    assert_eq!(a.name, "Alpha prod");
}
