use uptimers::cycle::{record_outcome, run_cycle};
use uptimers::model::SiteModel;
use uptimers::store::FactStore;
use uptimers::timestamp::Timestamp;

fn minute(m: u64) -> Timestamp {
    Timestamp { secs: m * 60, nanos: 0 }
}

fn config() -> Vec<SiteModel> {
    vec![
        SiteModel { site: "https://a.example".to_string(), name: "Alpha".to_string() },
        SiteModel { site: "https://b.example".to_string(), name: "Beta".to_string() },
    ]
}

#[test]
fn first_cycle_records_facts_and_flags_new_broken_site() {
    let mut store = FactStore::new();
    let notes = run_cycle(&mut store, &config(), &vec![200, 502], minute(10));
    assert_eq!(store.facts.len(), 2);
    assert_eq!(store.sites.len(), 2);
    // Every recorded timestamp lies on a minute boundary.
    for fact in &store.facts {
        assert_eq!(fact.tstamp.secs % 60, 0);
        assert_eq!(fact.tstamp.nanos, 0);
    }
    // Alpha succeeded and an unseen site counts as previously up: silent.
    // Beta failed its very first probe: one down notification.
    assert_eq!(notes, vec!["🔴 Beta down: 502".to_string()]);
}

#[test]
fn restart_within_the_minute_keeps_one_fact_per_site() {
    let mut store = FactStore::new();
    let first = run_cycle(&mut store, &config(), &vec![200, 502], minute(10));
    assert_eq!(first.len(), 1);
    // The same truncated minute again, as after a process restart: the
    // duplicate keys are silently ignored and no duplicate-key error
    // reaches the caller.
    let second = run_cycle(&mut store, &config(), &vec![200, 502], minute(10));
    assert_eq!(store.facts.len(), 2);
    // Beta's previous fact now says down, and it is still down: silent.
    assert!(second.is_empty());
}

#[test]
fn recovery_sends_exactly_one_up_note() {
    let mut store = FactStore::new();
    run_cycle(&mut store, &config(), &vec![200, 502], minute(10));
    let notes = run_cycle(&mut store, &config(), &vec![200, 200], minute(11));
    assert_eq!(store.facts.len(), 4);
    assert_eq!(notes, vec!["🟢 Beta up: 200".to_string()]);
}

#[test]
fn outage_sends_exactly_one_down_note() {
    let mut store = FactStore::new();
    run_cycle(&mut store, &config(), &vec![200, 200], minute(10));
    let notes = run_cycle(&mut store, &config(), &vec![500, 200], minute(11));
    assert_eq!(notes, vec!["🔴 Alpha down: 500".to_string()]);
    // Still down one minute later: no further note.
    let later = run_cycle(&mut store, &config(), &vec![500, 200], minute(12));
    assert!(later.is_empty());
}

#[test]
fn cycle_refreshes_display_names() {
    let mut store = FactStore::new();
    run_cycle(&mut store, &config(), &vec![200, 200], minute(10));
    let mut renamed = config();
    renamed[0].name = "Alpha prod".to_string();
    run_cycle(&mut store, &renamed, &vec![200, 200], minute(11));
    assert_eq!(store.sites.len(), 2);
    let a = store.find_site("https://a.example").expect("a.example is present");
    assert_eq!(a.name, "Alpha prod");
}

#[test]
fn redirect_counts_as_up() {
    let mut store = FactStore::new();
    let site = SiteModel { site: "https://a.example".to_string(), name: "Alpha".to_string() };
    let note = record_outcome(&mut store, &site, minute(10), 301);
    assert!(note.is_none());
    assert!(store.facts[0].success);
    assert_eq!(store.facts[0].status_code, 301);
}
