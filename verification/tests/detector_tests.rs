use uptimers::detector::{
    evaluate_transition, notification_message, notify_reply_ok, status_success, Transition,
};
use uptimers::model::SiteFactModel;
use uptimers::timestamp::Timestamp;

fn fact(success: bool) -> SiteFactModel {
    SiteFactModel {
        site: "https://a.example".to_string(),
        tstamp: Timestamp { secs: 60, nanos: 0 },
        success,
        status_code: if success { 200 } else { 502 },
    }
}

#[test]
fn down_to_up_notifies_up_once() {
    let prev = fact(false);
    let t = evaluate_transition(Some(&prev), true);
    assert_eq!(t, Some(Transition::Up));
}

#[test]
fn down_to_down_stays_silent() {
    let prev = fact(false);
    let t = evaluate_transition(Some(&prev), false);
    assert_eq!(t, None);
}

#[test]
fn up_to_down_notifies_down() {
    let prev = fact(true);
    let t = evaluate_transition(Some(&prev), false);
    assert_eq!(t, Some(Transition::Down));
}

#[test]
fn first_probe_failure_notifies_down() {
    // A site with no history counts as previously up.
    let t = evaluate_transition(None, false);
    assert_eq!(t, Some(Transition::Down));
}

#[test]
fn first_probe_success_stays_silent() {
    let t = evaluate_transition(None, true);
    assert_eq!(t, None);
}

#[test]
fn up_message_exact() {
    let m = notification_message("a.example", 200, Transition::Up);
    assert_eq!(m, "🟢 a.example up: 200");
}

#[test]
fn down_message_exact() {
    let m = notification_message("a.example", 502, Transition::Down);
    assert_eq!(m, "🔴 a.example down: 502");
}

#[test]
fn success_covers_2xx_and_3xx() {
    assert!(status_success(200));
    assert!(status_success(204));
    assert!(status_success(301));
    assert!(status_success(399));
    assert!(!status_success(199));
    assert!(!status_success(400));
    assert!(!status_success(404));
    assert!(!status_success(502));
}

#[test]
fn empty_notifier_reply_is_success() {
    assert!(notify_reply_ok("").is_ok());
    let err = notify_reply_ok("no such channel").unwrap_err();
    assert_eq!(err, "no such channel");
}
