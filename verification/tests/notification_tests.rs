use openchamber_tauri::commands::notifications::{
    is_any_window_focused, notification_key, notify, shown_outcome, NotificationDedupe, NotifyArgs,
    NotifyDecision, NotifyOutcome,
};

const SEC: u128 = 1_000_000_000;

fn args(title: Option<&str>, body: Option<&str>, tag: Option<&str>) -> NotifyArgs {
    NotifyArgs {
        title: title.map(|s| s.to_string()),
        body: body.map(|s| s.to_string()),
        tag: tag.map(|s| s.to_string()),
        session_id: None,
        kind: None,
        require_hidden: None,
    }
}

#[test]
fn dedupe_key_prefers_a_non_blank_tag() {
    assert_eq!(notification_key(&args(Some("t"), Some("b"), Some("tag-1"))), "tag-1");
    let mut a = args(Some("t"), Some("b"), Some("  "));
    a.session_id = Some("s".into());
    a.kind = Some("k".into());
    assert_eq!(notification_key(&a), "s|k|t|b");
    assert_eq!(notification_key(&args(None, None, None)), "|||");
}

#[test]
fn repeat_within_five_seconds_is_suppressed() {
    let mut ledger = NotificationDedupe::new();
    assert!(ledger.dedupe_pass("k", 10 * SEC));
    assert!(!ledger.dedupe_pass("k", 10 * SEC + 4_999_999_999));
    assert!(ledger.dedupe_pass("other", 11 * SEC));
}

#[test]
fn repeat_after_five_seconds_is_shown() {
    let mut ledger = NotificationDedupe::new();
    assert!(ledger.dedupe_pass("k", 10 * SEC));
    assert!(ledger.dedupe_pass("k", 15 * SEC));
    assert!(!ledger.dedupe_pass("k", 16 * SEC));
}

#[test]
fn empty_key_is_never_deduplicated() {
    let mut ledger = NotificationDedupe::new();
    assert!(ledger.dedupe_pass("", 1));
    assert!(ledger.dedupe_pass("", 1));
    assert!(!ledger.is_claimed(""));
}

#[test]
fn stale_claims_are_dropped() {
    let mut ledger = NotificationDedupe::new();
    assert!(ledger.dedupe_pass("a", 0));
    assert!(ledger.dedupe_pass("b", 3 * SEC));
    assert!(ledger.dedupe_pass("c", 6 * SEC));
    assert!(!ledger.is_claimed("a"));
    assert!(ledger.is_claimed("b"));
    assert!(ledger.is_claimed("c"));
    assert_eq!(ledger, {
        let mut expected = NotificationDedupe::new();
        assert!(expected.dedupe_pass("b", 3 * SEC));
        assert!(expected.dedupe_pass("c", 6 * SEC));
        expected
    });
}

#[test]
fn notify_shows_hidden_only_requests_when_no_window_is_focused() {
    assert!(!is_any_window_focused());
    let mut ledger = NotificationDedupe::new();
    let mut a = args(Some("t"), Some("b"), None);
    a.require_hidden = Some(true);
    let key = notification_key(&a);
    assert_eq!(
        notify(a, &mut ledger, 0),
        NotifyDecision::Show { title: "t".into(), body: "b".into() }
    );
    assert!(ledger.is_claimed(&key));
}

#[test]
fn notify_shows_then_dedupes() {
    let mut ledger = NotificationDedupe::new();
    assert_eq!(
        notify(args(Some("  "), Some("body"), None), &mut ledger, 0),
        NotifyDecision::Show { title: "OpenChamber".into(), body: "body".into() }
    );
    assert_eq!(
        notify(args(Some("  "), Some("body"), None), &mut ledger, SEC),
        NotifyDecision::Skip(NotifyOutcome { shown: false, reason: Some("deduped".into()) })
    );
    assert_eq!(
        notify(args(Some("Title"), None, None), &mut ledger, SEC),
        NotifyDecision::Show { title: "Title".into(), body: "".into() }
    );
    assert_eq!(shown_outcome(), NotifyOutcome { shown: true, reason: None });
}
