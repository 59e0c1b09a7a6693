use uptimers::model::{SiteFactModel, SiteModel};
use uptimers::store::FactStore;
use uptimers::timestamp::Timestamp;

const NOW_SECS: u64 = 200 * 86400;

fn now() -> Timestamp {
    Timestamp { secs: NOW_SECS, nanos: 0 }
}

fn hours_ago(h: u64) -> Timestamp {
    Timestamp { secs: NOW_SECS - h * 3600, nanos: 0 }
}

fn add_fact(store: &mut FactStore, site: &str, tstamp: Timestamp, success: bool, code: i16) {
    let inserted = store.insert_fact_if_absent(SiteFactModel {
        site: site.to_string(),
        tstamp,
        success,
        status_code: code,
    });
    assert!(inserted);
}

fn add_site(store: &mut FactStore, site: &str, name: &str) {
    store.upsert_site(SiteModel { site: site.to_string(), name: name.to_string() });
}

fn keys(sites: &[&str]) -> Vec<String> {
    sites.iter().map(|s| s.to_string()).collect()
}

#[test]
fn window_mean_counts_only_trailing_day() {
    let mut store = FactStore::new();
    add_site(&mut store, "https://a.example", "Alpha");
    add_fact(&mut store, "https://a.example", hours_ago(1), true, 200);
    add_fact(&mut store, "https://a.example", hours_ago(2), false, 502);
    add_fact(&mut store, "https://a.example", hours_ago(3), true, 200);
    // Older than 24 hours: excluded from the mean.
    add_fact(&mut store, "https://a.example", hours_ago(30), false, 500);
    let rows = store.aggregated_status(&keys(&["https://a.example"]), &now());
    assert_eq!(rows.len(), 1);
    assert_eq!(rows[0].avg.up, 2);
    assert_eq!(rows[0].avg.total, 3);
}

#[test]
fn site_with_only_old_facts_is_omitted() {
    let mut store = FactStore::new();
    add_site(&mut store, "https://a.example", "Alpha");
    add_fact(&mut store, "https://a.example", hours_ago(30), true, 200);
    add_fact(&mut store, "https://a.example", hours_ago(48), true, 200);
    let rows = store.aggregated_status(&keys(&["https://a.example"]), &now());
    assert!(rows.is_empty());
}

#[test]
fn site_without_site_row_is_omitted() {
    let mut store = FactStore::new();
    add_fact(&mut store, "https://a.example", hours_ago(1), true, 200);
    let rows = store.aggregated_status(&keys(&["https://a.example"]), &now());
    assert!(rows.is_empty());
}

#[test]
fn removed_site_disappears_from_next_snapshot() {
    let mut store = FactStore::new();
    add_site(&mut store, "https://a.example", "Alpha");
    add_site(&mut store, "https://b.example", "Beta");
    add_fact(&mut store, "https://a.example", hours_ago(1), true, 200);
    add_fact(&mut store, "https://b.example", hours_ago(1), true, 200);
    let both = store.aggregated_status(&keys(&["https://a.example", "https://b.example"]), &now());
    assert_eq!(both.len(), 2);
    // The configuration no longer lists a.example; its stored facts remain.
    let only_b = store.aggregated_status(&keys(&["https://b.example"]), &now());
    assert_eq!(only_b.len(), 1);
    assert_eq!(only_b[0].site, "https://b.example");
}

#[test]
fn rows_come_ordered_by_display_name() {
    let mut store = FactStore::new();
    add_site(&mut store, "https://c.example", "gamma");
    add_site(&mut store, "https://a.example", "beta");
    add_site(&mut store, "https://b.example", "alpha");
    add_fact(&mut store, "https://a.example", hours_ago(1), true, 200);
    add_fact(&mut store, "https://b.example", hours_ago(2), true, 200);
    add_fact(&mut store, "https://c.example", hours_ago(3), true, 200);
    let rows = store.aggregated_status(
        &keys(&["https://a.example", "https://b.example", "https://c.example"]),
        &now(),
    );
    assert_eq!(rows.len(), 3);
    assert_eq!(rows[0].name, "alpha");
    assert_eq!(rows[1].name, "beta");
    assert_eq!(rows[2].name, "gamma");
}

#[test]
fn day_of_hourly_facts_averages_to_five_sixths() {
    let mut store = FactStore::new();
    add_site(&mut store, "https://a.example", "Alpha");
    // 24 hourly facts in the window: 20 up, 4 down.  The most recent is
    // down with its own status code, and one failure sits two hours back.
    for h in 1..=24u64 {
        let (success, code) = match h {
            1 => (false, 503),
            2 => (false, 500),
            9 | 17 => (false, 502),
            _ => (true, 200),
        };
        add_fact(&mut store, "https://a.example", hours_ago(h), success, code);
    }
    // History beyond the window changes nothing.
    add_fact(&mut store, "https://a.example", hours_ago(30), true, 200);
    add_fact(&mut store, "https://a.example", hours_ago(48), false, 500);
    let rows = store.aggregated_status(&keys(&["https://a.example"]), &now());
    assert_eq!(rows.len(), 1);
    let row = &rows[0];
    assert_eq!(row.avg.up, 20);
    assert_eq!(row.avg.total, 24);
    let avg = row.avg.up as f64 / row.avg.total as f64;
    assert!((avg - 0.8333).abs() < 0.0001);
    // The latest fact still shows its own failure.
    assert_eq!(row.tstamp, hours_ago(1));
    assert!(!row.success);
    assert_eq!(row.status_code, 503);
}

#[test]
fn name_prefix_sorts_before_longer_name() {
    let mut store = FactStore::new();
    add_site(&mut store, "https://a.example", "Alpha");
    add_site(&mut store, "https://b.example", "Alp");
    add_fact(&mut store, "https://a.example", hours_ago(1), true, 200);
    add_fact(&mut store, "https://b.example", hours_ago(1), true, 200);
    let rows = store.aggregated_status(&keys(&["https://a.example", "https://b.example"]), &now());
    assert_eq!(rows.len(), 2);
    assert_eq!(rows[0].name, "Alp");
    assert_eq!(rows[1].name, "Alpha");
}

#[test]
fn equal_display_names_keep_both_rows() {
    let mut store = FactStore::new();
    add_site(&mut store, "https://a.example", "Mirror");
    add_site(&mut store, "https://b.example", "Mirror");
    add_fact(&mut store, "https://a.example", hours_ago(1), true, 200);
    add_fact(&mut store, "https://b.example", hours_ago(2), false, 502);
    let rows = store.aggregated_status(&keys(&["https://a.example", "https://b.example"]), &now());
    assert_eq!(rows.len(), 2);
    assert_ne!(rows[0].site, rows[1].site);
    assert_eq!(rows[0].name, "Mirror");
    assert_eq!(rows[1].name, "Mirror");
}

#[test]
fn fact_exactly_24_hours_old_is_counted() {
    let mut store = FactStore::new();
    add_site(&mut store, "https://a.example", "Alpha");
    add_fact(&mut store, "https://a.example", hours_ago(24), true, 200);
    let rows = store.aggregated_status(&keys(&["https://a.example"]), &now());
    assert_eq!(rows.len(), 1);
    assert_eq!(rows[0].avg.total, 1);
}
