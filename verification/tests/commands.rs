use site_checker::commands::{edit_site, empty_to_none, new_site, startup_warning};
use site_checker::store::load_sites;
use site_checker::engine::{jitter_ceiling_ms, record_outcome, startup_jitter_ms};
use site_checker::check::CheckOutcome;
use site_checker::model::{CheckState, Method, Site};

#[test]
fn a_blank_label_is_no_label() {
    assert_eq!(empty_to_none(None), None);
    assert_eq!(empty_to_none(Some("   ".to_string())), None);
    assert_eq!(empty_to_none(Some("  Home page ".to_string())).as_deref(), Some("Home page"));
}

#[test]
fn a_new_site_is_shaped_from_the_form() {
    let site = new_site(" Example.com/x ", Some(" Mine ".to_string()), 3).unwrap();
    assert_eq!(site.url, "https://Example.com/x");
    assert_eq!(site.label.as_deref(), Some("Mine"));
    assert_eq!(site.interval_secs, 10);
    assert_eq!(site.method_override, None);
    assert_eq!(site.id.len(), 36);
    assert_eq!(site.id.chars().filter(|c| *c == '-').count(), 4);
    assert_eq!(site.id.as_bytes()[14], b'4', "a version-4 id");
    assert!(matches!(site.id.as_bytes()[19], b'8' | b'9' | b'a' | b'b'));
    let other = new_site("example.com", None, 60).unwrap();
    assert_ne!(site.id, other.id, "every site gets its own id");
}

#[test]
fn a_bad_address_is_rejected_before_anything_is_made() {
    assert_eq!(new_site("ftp://x.dev", None, 60).unwrap_err(), "Only http and https URLs are supported");
}

fn existing() -> Site {
    Site {
        id: "one".to_string(),
        url: "https://a.dev".to_string(),
        label: None,
        interval_secs: 60,
        method_override: Some(Method::Get),
    }
}

#[test]
fn an_edit_keeps_the_learned_method_only_for_the_same_address() {
    let mut store = load_sites(vec![existing()]).store;
    let same = edit_site(&mut store, "one", " HTTPS://a.dev ", Some(" Home ".to_string()), 5).unwrap();
    assert_eq!(same.url, "https://a.dev");
    assert_eq!(same.label.as_deref(), Some("Home"));
    assert_eq!(same.method_override, Some(Method::Get));
    assert_eq!(same.interval_secs, 10);
    assert_eq!(store.get("one"), Some(same));

    let moved = edit_site(&mut store, "one", "b.dev", None, 60).unwrap();
    assert_eq!(moved.url, "https://b.dev");
    assert_eq!(moved.method_override, None);
    assert_eq!(store.get("one"), Some(moved));
}

#[test]
fn an_edit_decides_from_the_entry_as_it_stands() {
    // An earlier edit repoints the site; a later edit back to the first address
    // must not resurrect the method learned for it.
    let mut store = load_sites(vec![existing()]).store;
    edit_site(&mut store, "one", "https://b.dev", None, 60).unwrap();
    let later = edit_site(&mut store, "one", "https://a.dev", None, 300).unwrap();
    assert_eq!(later.method_override, None);
}

#[test]
fn an_edit_of_a_vanished_site_is_refused() {
    let mut store = load_sites(vec![existing()]).store;
    store.delete("one");
    assert_eq!(
        edit_site(&mut store, "one", "https://a.dev", None, 60).unwrap_err(),
        "That site no longer exists"
    );
    assert!(store.list().is_empty());
}

#[test]
fn an_edit_with_a_bad_address_changes_nothing() {
    let mut store = load_sites(vec![existing()]).store;
    assert_eq!(
        edit_site(&mut store, "one", "ftp://a.dev", None, 60).unwrap_err(),
        "Only http and https URLs are supported"
    );
    assert_eq!(store.get("one"), Some(existing()));
}

#[test]
fn the_store_warning_takes_precedence_at_startup() {
    assert_eq!(
        startup_warning(Some("list".to_string()), Some("denied".to_string())).as_deref(),
        Some("list")
    );
    assert_eq!(
        startup_warning(None, Some("denied".to_string())).as_deref(),
        Some("Could not turn on Launch at login (denied). Tick the box below to try again.")
    );
    assert_eq!(startup_warning(None, None), None);
}

#[test]
fn the_startup_offset_is_at_most_ten_seconds_and_never_above_the_interval() {
    assert_eq!(jitter_ceiling_ms(3), 3000);
    assert_eq!(jitter_ceiling_ms(10), 10000);
    assert_eq!(jitter_ceiling_ms(3600), 10000);
    for _ in 0..100 {
        assert!(startup_jitter_ms(3) <= 3000);
        assert!(startup_jitter_ms(600) <= 10000);
    }
}

#[test]
fn a_fallback_check_switches_the_site_to_get_and_asks_to_record_it() {
    let outcome = CheckOutcome { state: CheckState::Up, reason: None, used_get_fallback: true };
    let report = record_outcome("one", 60, None, outcome, 1234);
    assert_eq!(report.method_override, Some(Method::Get));
    assert!(report.persist_get_fallback);
    assert_eq!(report.event.id, "one");
    assert_eq!(report.event.state, CheckState::Up);
    assert_eq!(report.event.checked_at, 1234);
    assert_eq!(report.pause_secs, 60);

    let outcome = CheckOutcome {
        state: CheckState::Down,
        reason: Some("HTTP 500".to_string()),
        used_get_fallback: false,
    };
    let report = record_outcome("one", 30, Some(Method::Get), outcome, 5);
    assert_eq!(report.method_override, Some(Method::Get));
    assert!(!report.persist_get_fallback);
    assert_eq!(report.event.reason.as_deref(), Some("HTTP 500"));
    assert_eq!(report.pause_secs, 30);
}
