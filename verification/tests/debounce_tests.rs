use kemote::debounce::{query_lookup_plan, QueryDebouncer, QueryLookupPlan, TimerDecision};
use kemote::emote::WebmEmote;
use kemote::errors::NetworkError;
use kemote::DEBOUNCE_DELAY_MS;

fn emote(id: &str) -> WebmEmote {
    WebmEmote { id: id.to_string(), name: id.to_string(), url: format!("http://e/{}", id) }
}

#[test]
fn debounce_coalesces_a_burst_to_one_search() {
    // Keystrokes at t = 0, 50, 100, 150 ms, all within the 200 ms window,
    // then silence: when the timers fire, only the unit of the last
    // keystroke runs, carrying the text as of t = 150.
    let mut debouncer = QueryDebouncer::new();
    let u0 = debouncer.on_text_changed("k");
    let u1 = debouncer.on_text_changed("ka");
    let u2 = debouncer.on_text_changed("kap");
    let u3 = debouncer.on_text_changed("kapp");
    assert_eq!(debouncer.on_timer_fired(&u0), TimerDecision::Superseded);
    assert_eq!(debouncer.on_timer_fired(&u1), TimerDecision::Superseded);
    assert_eq!(debouncer.on_timer_fired(&u2), TimerDecision::Superseded);
    assert_eq!(debouncer.on_timer_fired(&u3), TimerDecision::RunQuery);
    assert_eq!(u3.query, "kapp");
    assert_eq!(u3.delay_ms, DEBOUNCE_DELAY_MS);
}

#[test]
fn generation_safety_under_slow_networks() {
    // Query A is superseded by query B before A's network step returns.
    // A's result arrives after B's delay elapsed but before B's own network
    // step returns: it must never become visible.
    let mut debouncer = QueryDebouncer::new();
    let unit_a = debouncer.on_text_changed("first");
    let unit_b = debouncer.on_text_changed("second");
    // B's timer fires and B starts its slow lookup.
    assert_eq!(debouncer.on_timer_fired(&unit_b), TimerDecision::RunQuery);

    let mut visible = vec![emote("old")];
    // A's late result arrives now.
    assert!(!debouncer.may_commit(unit_a.generation));
    debouncer.apply_outcome(unit_a.generation, &mut visible, Ok(vec![emote("from-a")]));
    assert_eq!(visible.len(), 1);
    assert_eq!(visible[0].id, "old");

    // B's result arrives later in wall-clock time and commits.
    assert!(debouncer.may_commit(unit_b.generation));
    debouncer.apply_outcome(unit_b.generation, &mut visible, Ok(vec![emote("from-b")]));
    assert_eq!(visible.len(), 1);
    assert_eq!(visible[0].id, "from-b");
}

#[test]
fn empty_query_commits_recent_without_lookup() {
    let mut debouncer = QueryDebouncer::new();
    let unit = debouncer.on_text_changed("");
    assert_eq!(unit.query, "");
    assert_eq!(debouncer.on_timer_fired(&unit), TimerDecision::CommitRecent);
}

#[test]
fn failed_lookup_leaves_visible_list_unchanged() {
    let mut debouncer = QueryDebouncer::new();
    let unit = debouncer.on_text_changed("kappa");
    assert_eq!(debouncer.on_timer_fired(&unit), TimerDecision::RunQuery);
    let mut visible = vec![emote("shown")];
    debouncer.apply_outcome(unit.generation, &mut visible, Err(NetworkError::Unreachable));
    assert_eq!(visible.len(), 1);
    assert_eq!(visible[0].id, "shown");
}

#[test]
fn query_documents_are_disk_first() {
    assert_eq!(query_lookup_plan(true), QueryLookupPlan::UseDiskDocument);
    assert_eq!(query_lookup_plan(false), QueryLookupPlan::FetchAndPersist);
}

#[test]
fn text_is_normalized_at_the_keystroke() {
    let mut debouncer = QueryDebouncer::new();
    let unit = debouncer.on_text_changed("KaPPa");
    assert_eq!(unit.query, "kappa");
    let long = "A".repeat(80);
    let unit2 = debouncer.on_text_changed(&long);
    assert_eq!(unit2.query.len(), 64);
    assert!(unit2.query.chars().all(|c| c == 'a'));
}
