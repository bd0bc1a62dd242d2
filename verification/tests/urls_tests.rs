use bins::urls::{
    bitbucket_id_from_html_url,
    bitbucket_id_from_raw_url,
    fedora_html_url,
    fedora_id_from_url,
    fedora_raw_url,
    gist_id_from_html_url,
    gist_id_from_raw_url,
    hastebin_html_url,
    hastebin_id_from_url,
    hastebin_raw_url,
    last_url_segment,
    pastebin_html_url,
    pastebin_id_from_url,
    pastebin_raw_url,
    pastegg_id_from_html_url,
    pastegg_id_from_raw_url,
    sprunge_id_from_url,
    sprunge_url,
    str_starts_with,
};

#[test]
fn sprunge_round_trip_recovers_the_id() {
    let url = sprunge_url("AbC9");
    assert_eq!(url, "http://sprunge.us/AbC9");
    assert_eq!(sprunge_id_from_url(&url), Some("AbC9".to_owned()));
}

#[test]
fn sprunge_id_ignores_query() {
    assert_eq!(
        sprunge_id_from_url("http://sprunge.us/AbC9?lang=rust"),
        Some("AbC9".to_owned()),
    );
}

#[test]
fn pastebin_round_trips_recover_the_id() {
    assert_eq!(pastebin_html_url("xYz12"), "https://pastebin.com/xYz12");
    assert_eq!(pastebin_raw_url("xYz12"), "https://pastebin.com/raw/xYz12");
    assert_eq!(
        pastebin_id_from_url(&pastebin_html_url("xYz12")),
        Some("xYz12".to_owned()),
    );
    assert_eq!(
        pastebin_id_from_url(&pastebin_raw_url("xYz12")),
        Some("xYz12".to_owned()),
    );
}

#[test]
fn hastebin_round_trips_recover_the_id() {
    assert_eq!(hastebin_html_url("abcdef"), "https://hastebin.com/abcdef");
    assert_eq!(hastebin_raw_url("abcdef"), "https://hastebin.com/raw/abcdef");
    assert_eq!(
        hastebin_id_from_url(&hastebin_html_url("abcdef")),
        Some("abcdef".to_owned()),
    );
    assert_eq!(
        hastebin_id_from_url(&hastebin_raw_url("abcdef")),
        Some("abcdef".to_owned()),
    );
}

#[test]
fn hastebin_id_strips_the_extension() {
    assert_eq!(
        hastebin_id_from_url("https://hastebin.com/abcdef.rs"),
        Some("abcdef".to_owned()),
    );
}

#[test]
fn fedora_round_trips_recover_the_id() {
    assert_eq!(
        fedora_html_url("wXyZ"),
        "https://paste.fedoraproject.org/paste/wXyZ",
    );
    assert_eq!(
        fedora_raw_url("wXyZ"),
        "https://paste.fedoraproject.org/paste/wXyZ/raw",
    );
    assert_eq!(fedora_id_from_url(&fedora_html_url("wXyZ")), Some("wXyZ".to_owned()));
    assert_eq!(fedora_id_from_url(&fedora_raw_url("wXyZ")), Some("wXyZ".to_owned()));
}

#[test]
fn fedora_id_needs_two_segments() {
    assert_eq!(fedora_id_from_url("https://paste.fedoraproject.org/paste"), None);
    assert_eq!(fedora_id_from_url("https://paste.fedoraproject.org/"), None);
}

#[test]
fn gist_ids_come_from_either_url_shape() {
    assert_eq!(
        gist_id_from_html_url("https://gist.github.com/someone/abc123"),
        Some("abc123".to_owned()),
    );
    assert_eq!(
        gist_id_from_raw_url("https://gist.githubusercontent.com/someone/abc123/raw/f/file.txt"),
        Some("abc123".to_owned()),
    );
}

#[test]
fn bitbucket_html_id_is_the_last_two_segments() {
    assert_eq!(
        bitbucket_id_from_html_url("https://bitbucket.org/someone/abc123"),
        Some("someone/abc123".to_owned()),
    );
    assert_eq!(
        bitbucket_id_from_html_url("https://bitbucket.org/someone/abc123?x=1#frag"),
        Some("someone/abc123".to_owned()),
    );
    assert_eq!(
        bitbucket_id_from_html_url("https://bitbucket.org/snippets/someone/abc123"),
        Some("someone/abc123".to_owned()),
    );
    assert_eq!(bitbucket_id_from_html_url("https://bitbucket.org/justone"), None);
}

#[test]
fn bitbucket_raw_id_reads_the_api_shape() {
    assert_eq!(
        bitbucket_id_from_raw_url(
            "https://bitbucket.org/!api/2.0/snippets/someone/abc123/files/x.txt",
        ),
        Some("someone/abc123".to_owned()),
    );
    // a non-API raw URL reads as the display form
    assert_eq!(
        bitbucket_id_from_raw_url("https://bitbucket.org/someone/abc123"),
        Some("someone/abc123".to_owned()),
    );
    // too few segments for the API shape
    assert_eq!(bitbucket_id_from_raw_url("https://bitbucket.org/!api/2.0/snippets"), None);
    assert_eq!(
        bitbucket_id_from_raw_url("https://bitbucket.org/!api/2.0/snippets/someone"),
        None,
    );
}

#[test]
fn pastegg_ids_come_from_either_url_shape() {
    assert_eq!(
        pastegg_id_from_html_url("https://paste.gg/p/anonymous/abcdef"),
        Some("abcdef".to_owned()),
    );
    // a single-segment raw path is the id itself
    assert_eq!(
        pastegg_id_from_raw_url("https://paste.gg/abcdef"),
        Some("abcdef".to_owned()),
    );
    // otherwise the second segment is
    assert_eq!(
        pastegg_id_from_raw_url("https://paste.gg/p/abcdef"),
        Some("abcdef".to_owned()),
    );
}

#[test]
fn last_segment_takes_what_follows_the_last_slash() {
    assert_eq!(
        last_url_segment("https://example.com/a/b/c"),
        Some("c".to_owned()),
    );
    assert_eq!(
        last_url_segment("https://example.com/a/b/c#frag"),
        Some("c".to_owned()),
    );
    assert_eq!(last_url_segment("https://example.com/"), Some(String::new()));
}

#[test]
fn last_segment_rejects_foreign_shapes() {
    assert_eq!(last_url_segment("ftp://example.com/a"), None);
    assert_eq!(last_url_segment("example.com/a"), None);
    assert_eq!(last_url_segment("https://example.com"), None);
    assert_eq!(last_url_segment(""), None);
}

#[test]
fn starts_with_compares_prefixes() {
    assert!(str_starts_with("https://x", "https://"));
    assert!(!str_starts_with("http://x", "https://"));
    assert!(!str_starts_with("ab", "abc"));
    assert!(str_starts_with("abc", ""));
}
