use kemote::emote::{emote_from_item, emotes_from_items, Image, Item, WebmEmote};
use kemote::errors::VariantError;
use kemote::hashing::{cache_key, digest_hex};
use kemote::request::search_variables;
use kemote::store::DiskStore;
use kemote::text::{decimal_string, normalize_query, truncate_chars};

const ABC_DIGEST: &str = "ba7816bf8f01cfea414140de5dae2223b00361a396177a9cb410ff61f20015ad";

#[test]
fn digest_is_the_real_sha256_hex() {
    // Well-known vector: sha256("abc").  This fails if the digest were not
    // computed from the input.
    assert_eq!(digest_hex(&"abc".to_string()), ABC_DIGEST);
    assert_eq!(digest_hex(&"".to_string()).len(), 64);
    assert_ne!(digest_hex(&"abd".to_string()), ABC_DIGEST);
}

#[test]
fn cache_keys_are_the_digest_prefix() {
    assert_eq!(cache_key(&"abc".to_string()), 0xba7816bf8f01cfea);
    // Equal identifiers always yield equal keys.
    assert_eq!(cache_key(&"abc".to_string()), cache_key(&"abc".to_string()));
    assert_ne!(cache_key(&"abc".to_string()), cache_key(&"abd".to_string()));
}

#[test]
fn disk_layout_is_content_addressed() {
    let store = DiskStore::new("/var/cache/emotes".to_string());
    assert_eq!(store.blobs_dir(), "/var/cache/emotes/blobs");
    assert_eq!(store.queries_dir(), "/var/cache/emotes/queries");
    assert_eq!(store.recent_path(), "/var/cache/emotes/recent.json");
    assert_eq!(
        store.blob_path(&"abc".to_string()),
        format!("/var/cache/emotes/blobs/{}.webp", ABC_DIGEST)
    );
    assert_eq!(
        store.query_doc_path(&"abc".to_string()),
        format!("/var/cache/emotes/queries/{}.json", ABC_DIGEST)
    );
    assert_eq!(
        WebmEmote::path(&"/base".to_string(), &"abc".to_string()),
        format!("/base/blobs/{}.webp", ABC_DIGEST)
    );
}

#[test]
fn normalization_truncates_then_lowercases() {
    assert_eq!(normalize_query("KAPPA"), "kappa");
    assert_eq!(normalize_query(""), "");
    let long = "X".repeat(100);
    assert_eq!(normalize_query(&long), "x".repeat(64));
}

#[test]
fn truncation_never_splits_a_character() {
    // 63 ASCII bytes, then a two-byte character that would make 65 bytes:
    // the two-byte character must be dropped whole.
    let text = format!("{}\u{00e9}", "a".repeat(63));
    let cut = truncate_chars(&text, 64);
    assert_eq!(cut, "a".repeat(63));
    // With one byte less it fits.
    let text2 = format!("{}\u{00e9}", "a".repeat(62));
    assert_eq!(truncate_chars(&text2, 64), text2);
}

#[test]
fn decimal_formatting_is_exact() {
    assert_eq!(decimal_string(0), "0");
    assert_eq!(decimal_string(7), "7");
    assert_eq!(decimal_string(50), "50");
    assert_eq!(decimal_string(12_345_678_901), "12345678901");
}

#[test]
fn search_variables_exact_text() {
    let body = search_variables(&"kappa".to_string());
    assert_eq!(
        body,
        "{ \"query\": \"kappa\", \"tags\": [], \"sortBy\": \"TOP_ALL_TIME\", \
         \"page\": 1, \"perPage\": 50 }"
    );
    // Quotes in a query are escaped, keeping the document well-formed.
    let tricky = search_variables(&"a\"b".to_string());
    assert!(tricky.contains("a\\\"b"));
}

fn image(url: &str, mime: &str, scale: usize) -> Image {
    Image {
        url: url.to_string(),
        mime: mime.to_string(),
        size: 1000,
        scale,
        width: 128,
        frame_count: 1,
    }
}

#[test]
fn variant_selection_takes_webp_at_target_scale() {
    let item = Item {
        id: "01X".to_string(),
        name: "peepo".to_string(),
        images: vec![
            image("http://cdn/1x.avif", "image/avif", 1),
            image("http://cdn/4x.avif", "image/avif", 4),
            image("http://cdn/1x.webp", "image/webp", 1),
            image("http://cdn/4x.webp", "image/webp", 4),
            image("http://cdn/4x-b.webp", "image/webp", 4),
        ],
    };
    let emote = emote_from_item(&item).expect("a matching variant exists");
    assert_eq!(emote.id, "01X");
    assert_eq!(emote.name, "peepo");
    // The first matching variant is taken.
    assert_eq!(emote.url, "http://cdn/4x.webp");
}

#[test]
fn record_without_matching_variant_is_an_error() {
    let item = Item {
        id: "01Y".to_string(),
        name: "noscale".to_string(),
        images: vec![
            image("http://cdn/1x.webp", "image/webp", 1),
            image("http://cdn/4x.avif", "image/avif", 4),
        ],
    };
    assert_eq!(emote_from_item(&item).unwrap_err(), VariantError::NoMatchingVariant);
}

#[test]
fn batch_resolution_drops_unresolvable_records() {
    let good = Item {
        id: "g".to_string(),
        name: "good".to_string(),
        images: vec![image("http://cdn/g.webp", "image/webp", 4)],
    };
    let bad = Item { id: "b".to_string(), name: "bad".to_string(), images: vec![] };
    let good2 = Item {
        id: "g2".to_string(),
        name: "good2".to_string(),
        images: vec![image("http://cdn/g2.webp", "image/webp", 4)],
    };
    let emotes = emotes_from_items(&vec![good, bad, good2]);
    assert_eq!(emotes.len(), 2);
    assert_eq!(emotes[0].id, "g");
    assert_eq!(emotes[1].id, "g2");
}

#[test]
fn lowercasing_goes_through_the_real_std_call() {
    // Fails if the lowercase step handed its argument back unchanged.
    assert_eq!(normalize_query("\u{0178}"), "\u{00ff}");
}
