use kemote::codec::{decode_doc, encode_doc};
use kemote::emote::WebmEmote;
use kemote::recent::RecentEmotes;
use kemote::text::chars_of;

fn emote(id: &str, name: &str, url: &str) -> WebmEmote {
    WebmEmote { id: id.to_string(), name: name.to_string(), url: url.to_string() }
}

#[test]
fn recency_bound_and_order() {
    // capacity 2: access A, B, C leaves [C, B]; A is evicted.
    let mut recent = RecentEmotes::new(2);
    recent.access(emote("a", "Alpha", "http://e/a"));
    recent.access(emote("b", "Beta", "http://e/b"));
    recent.access(emote("c", "Gamma", "http://e/c"));
    let snapshot = recent.recent();
    assert_eq!(snapshot.len(), 2);
    assert_eq!(snapshot[0].id, "c");
    assert_eq!(snapshot[1].id, "b");
}

#[test]
fn recency_no_duplicates() {
    let mut recent = RecentEmotes::new(3);
    recent.access(emote("a", "Alpha", "http://e/a"));
    recent.access(emote("b", "Beta", "http://e/b"));
    recent.access(emote("a", "Alpha", "http://e/a"));
    let snapshot = recent.recent();
    assert_eq!(snapshot.len(), 2);
    assert_eq!(snapshot[0].id, "a");
    assert_eq!(snapshot[1].id, "b");
    assert_eq!(recent.len(), 2);
}

#[test]
fn recency_moves_existing_to_front_without_eviction() {
    let mut recent = RecentEmotes::new(2);
    recent.access(emote("a", "Alpha", "http://e/a"));
    recent.access(emote("b", "Beta", "http://e/b"));
    // Re-accessing "a" must not evict "b": the duplicate is removed first.
    recent.access(emote("a", "Alpha", "http://e/a"));
    let snapshot = recent.recent();
    assert_eq!(snapshot.len(), 2);
    assert_eq!(snapshot[0].id, "a");
    assert_eq!(snapshot[1].id, "b");
}

#[test]
fn recency_round_trip_through_document() {
    // Serializing then reloading reproduces an identical ordered id sequence.
    let mut recent = RecentEmotes::new(5);
    recent.access(emote("one", "First", "http://e/1"));
    recent.access(emote("two", "Second", "http://e/2"));
    recent.access(emote("three", "Third", "http://e/3"));
    let saved = encode_doc(&recent.recent());
    let records = decode_doc(&chars_of(&saved)).expect("document must parse");

    let mut reloaded = RecentEmotes::new(5);
    reloaded.load_saved(records);
    let before: Vec<String> = recent.recent().iter().map(|e| e.id.clone()).collect();
    let after: Vec<String> = reloaded.recent().iter().map(|e| e.id.clone()).collect();
    assert_eq!(before, after);
    assert_eq!(after, vec!["three".to_string(), "two".to_string(), "one".to_string()]);
}

#[test]
fn recency_load_saved_applies_bound_and_dedup() {
    let mut recent = RecentEmotes::new(2);
    recent.load_saved(vec![
        emote("a", "Alpha", "http://e/a"),
        emote("a", "AlphaAgain", "http://e/a2"),
        emote("b", "Beta", "http://e/b"),
        emote("c", "Gamma", "http://e/c"),
    ]);
    let snapshot = recent.recent();
    assert_eq!(snapshot.len(), 2);
    assert_eq!(snapshot[0].id, "a");
    assert_eq!(snapshot[0].name, "Alpha");
    assert_eq!(snapshot[1].id, "b");
}

#[test]
fn recency_capacity_is_kept() {
    let mut recent = RecentEmotes::new(4);
    assert_eq!(recent.capacity(), 4);
    for i in 0..10 {
        recent.access(emote(&format!("id{}", i), "E", "http://e"));
    }
    assert_eq!(recent.len(), 4);
    let snapshot = recent.recent();
    assert_eq!(snapshot[0].id, "id9");
    assert_eq!(snapshot[3].id, "id6");
}
