use kemote::codec::{decode_doc, encode_doc};
use kemote::emote::WebmEmote;
use kemote::text::{chars_of, string_of};

fn emote(id: &str, name: &str, url: &str) -> WebmEmote {
    WebmEmote { id: id.to_string(), name: name.to_string(), url: url.to_string() }
}

#[test]
fn encode_empty_document() {
    let records: Vec<WebmEmote> = Vec::new();
    assert_eq!(encode_doc(&records), "[]");
}

#[test]
fn encode_one_record_exact_text() {
    let records = vec![emote("01F", "peepo", "https://cdn.example/e.webp")];
    let expected = "[\n  { \"id\": \"01F\", \"display_name\": \"peepo\", \
                    \"remote_url\": \"https://cdn.example/e.webp\" }\n]";
    assert_eq!(encode_doc(&records), expected);
}

#[test]
fn encode_two_records_exact_text() {
    let records = vec![emote("a", "A", "u1"), emote("b", "B", "u2")];
    let expected = "[\n  { \"id\": \"a\", \"display_name\": \"A\", \"remote_url\": \"u1\" },\n  \
                    { \"id\": \"b\", \"display_name\": \"B\", \"remote_url\": \"u2\" }\n]";
    assert_eq!(encode_doc(&records), expected);
}

#[test]
fn escapes_quotes_backslashes_and_line_breaks() {
    let records = vec![emote("q\"x", "back\\slash", "line\nbreak\tand\rreturn")];
    let text = encode_doc(&records);
    assert!(text.contains("q\\\"x"));
    assert!(text.contains("back\\\\slash"));
    assert!(text.contains("line\\nbreak\\tand\\rreturn"));
    // No raw control characters inside the value.
    let decoded = decode_doc(&chars_of(&text)).expect("escaped document must parse");
    assert_eq!(decoded.len(), 1);
    assert!(decoded[0] == records[0]);
}

#[test]
fn decode_inverts_encode() {
    let records = vec![
        emote("01ABC", "Kappa", "https://cdn.example/kappa/4x.webp"),
        emote("01DEF", "with \"quotes\"", "https://cdn.example/q.webp"),
        emote("01GHI", "uni\u{00e9}code", "https://cdn.example/u.webp"),
    ];
    let text = encode_doc(&records);
    let decoded = decode_doc(&chars_of(&text)).expect("encoded document must parse");
    assert_eq!(decoded.len(), records.len());
    for (a, b) in records.iter().zip(decoded.iter()) {
        assert!(a == b);
    }
}

#[test]
fn decode_rejects_malformed_documents() {
    for bad in [
        "",
        "[",
        "]",
        "[ ]",
        "[\n  { \"id\": \"a\" }\n]",
        "[\n  { \"id\": \"a\", \"display_name\": \"A\", \"remote_url\": \"u\" }",
        "[\n  { \"id\": \"a\", \"display_name\": \"A\", \"remote_url\": \"u\" }\n] trailing",
        "[\n  { \"id\": \"a\", \"display_name\": \"A\", \"remote_url\": \"u\\x\" }\n]",
        "not a document at all",
    ] {
        assert!(decode_doc(&chars_of(bad)).is_none(), "must reject: {:?}", bad);
    }
}

#[test]
fn decode_accepts_handwritten_canonical_document() {
    let text = "[\n  { \"id\": \"z9\", \"display_name\": \"Zed\", \"remote_url\": \"u\" }\n]";
    let decoded = decode_doc(&chars_of(text)).expect("canonical document must parse");
    assert_eq!(decoded.len(), 1);
    assert_eq!(decoded[0].id, "z9");
    assert_eq!(decoded[0].name, "Zed");
    assert_eq!(decoded[0].url, "u");
}

#[test]
fn decode_empty_document() {
    let decoded = decode_doc(&chars_of("[]")).expect("empty document must parse");
    assert!(decoded.is_empty());
}

#[test]
fn chars_and_string_round_trip() {
    let text = "mixed \u{00e9}\u{4e16} text";
    assert_eq!(string_of(&chars_of(text)), text);
}
