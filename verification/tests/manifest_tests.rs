use bins::files::IndexedFile;
use bins::manifest::{escape_json, index_json};

fn entry(name: &str, url: &str) -> IndexedFile {
    IndexedFile::new(name.to_owned(), url.to_owned())
}

/// Renders the same entries through serde_json, as the reference output.
fn serde_pretty(files: &[IndexedFile]) -> String {
    let mut array: Vec<serde_json::Value> = Vec::new();
    for f in files {
        let mut map = serde_json::Map::new();
        map.insert("name".to_owned(), serde_json::Value::String(f.name.clone()));
        map.insert("url".to_owned(), serde_json::Value::String(f.url.clone()));
        array.push(serde_json::Value::Object(map));
    }
    serde_json::to_string_pretty(&serde_json::Value::Array(array)).unwrap()
}

#[test]
fn empty_manifest_is_the_empty_array() {
    let files: Vec<IndexedFile> = Vec::new();
    assert_eq!(index_json(&files), "[]");
    assert_eq!(index_json(&files), serde_pretty(&files));
}

#[test]
fn manifest_matches_reference_pretty_printer() {
    let files = vec![
        entry("a.txt", "https://example.com/1"),
        entry("b.txt", "https://example.com/2"),
        entry("c.txt", "https://example.com/3"),
    ];
    assert_eq!(index_json(&files), serde_pretty(&files));
}

#[test]
fn manifest_escapes_like_reference_pretty_printer() {
    let files = vec![
        entry("quote\"back\\slash", "https://example.com/?q=\"x\""),
        entry("control\u{1}\u{1f}tab\there", "line\nfeed\rreturn\u{8}\u{c}"),
    ];
    assert_eq!(index_json(&files), serde_pretty(&files));
}

#[test]
fn manifest_keeps_unicode_untouched() {
    let files = vec![entry("na\u{ef}ve \u{1f600}", "https://example.com/\u{e9}")];
    assert_eq!(index_json(&files), serde_pretty(&files));
}

#[test]
fn escape_json_rewrites_specials_only() {
    assert_eq!(escape_json("plain"), "plain");
    assert_eq!(escape_json("a\"b"), "a\\\"b");
    assert_eq!(escape_json("a\\b"), "a\\\\b");
    assert_eq!(escape_json("a\nb\tc"), "a\\nb\\tc");
    assert_eq!(escape_json("\u{1}"), "\\u0001");
    assert_eq!(escape_json("\u{1f}"), "\\u001f");
}
