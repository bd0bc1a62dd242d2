use bins::{BinFeature, DownloadInfo, PasteUrl};
use bins::config::{CommandLineOptions, Config, UrlOutputMode};
use bins::files::{DownloadedFile, IndexedFile, PasteFileName, UploadFile};
use bins::range::BidirectionalRange;
use bins::sorting::{sort_downloaded_by_name, sort_indexed_by_name};
use bins::strutil::{parse_number, usize_to_string};

#[test]
fn paste_file_name_uses_the_wrapped_string() {
    assert_eq!(PasteFileName::Explicit("a.txt".to_owned()).name(), "a.txt");
    assert_eq!(PasteFileName::Guessed("id123".to_owned()).name(), "id123");
}

#[test]
fn paste_url_reports_name_and_url() {
    let html = PasteUrl::html(
        Some(PasteFileName::Explicit("f".to_owned())),
        "https://example.com/h".to_owned(),
    );
    assert_eq!(html.url(), "https://example.com/h");
    assert_eq!(html.name(), Some(PasteFileName::Explicit("f".to_owned())));
    let raw = PasteUrl::raw(None, "https://example.com/r".to_owned());
    assert_eq!(raw.url(), "https://example.com/r");
    assert_eq!(raw.name(), None);
    let down = PasteUrl::Downloaded(
        "https://example.com/d".to_owned(),
        DownloadedFile::new(PasteFileName::Guessed("g".to_owned()), "body".to_owned()),
    );
    assert_eq!(down.url(), "https://example.com/d");
    assert_eq!(down.name(), Some(PasteFileName::Guessed("g".to_owned())));
}

#[test]
fn constructors_keep_their_fields() {
    let f = UploadFile::new("n".to_owned(), "c".to_owned());
    assert_eq!((f.name.as_str(), f.content.as_str()), ("n", "c"));
    let i = IndexedFile::new("n".to_owned(), "u".to_owned());
    assert_eq!((i.name.as_str(), i.url.as_str()), ("n", "u"));
    let d = DownloadedFile::new(PasteFileName::Explicit("n".to_owned()), "c".to_owned());
    assert_eq!(d.content, "c");
}

#[test]
fn download_info_constructors_set_one_selection() {
    let names = DownloadInfo::names(&["a", "b"]);
    assert_eq!(names.names, Some(vec!["a".to_owned(), "b".to_owned()]));
    assert!(names.range.is_none());
    let ranges = DownloadInfo::range(&[BidirectionalRange::new(1, 3)]);
    assert!(ranges.names.is_none());
    assert_eq!(ranges.range, Some(vec![BidirectionalRange::new(1, 3)]));
    let empty = DownloadInfo::empty();
    assert!(empty.names.is_none() && empty.range.is_none());
}

#[test]
fn feature_descriptions_match_display_names() {
    assert_eq!(BinFeature::Private.description(), "private");
    assert_eq!(BinFeature::Public.description(), "public");
    assert_eq!(BinFeature::Authed.description(), "authed");
    assert_eq!(BinFeature::Anonymous.description(), "anonymous");
    assert_eq!(BinFeature::MultiFile.description(), "multiple-file");
    assert_eq!(BinFeature::SingleNaming.description(), "single-file named");
}

#[test]
fn cli_options_json_defaults_off() {
    let mut opts = CommandLineOptions::default();
    assert!(!opts.json());
    opts.json = Some(false);
    assert!(!opts.json());
    opts.json = Some(true);
    assert!(opts.json());
    opts.url_output = Some(UrlOutputMode::Raw);
    assert_eq!(opts.url_output, Some(UrlOutputMode::Raw));
}

#[test]
fn config_default_is_all_unset() {
    let c = Config::default();
    assert!(c.general.file_size_limit.is_none());
    assert!(c.defaults.bin.is_none());
    assert!(c.gist.username.is_none());
    assert!(c.pastebin.api_key.is_none());
    assert!(c.hastebin.server.is_none());
    assert!(c.bitbucket.app_password.is_none());
}

#[test]
fn sorting_is_by_name_and_stable() {
    let v = vec![
        IndexedFile::new("b".to_owned(), "u1".to_owned()),
        IndexedFile::new("a".to_owned(), "u2".to_owned()),
        IndexedFile::new("b".to_owned(), "u3".to_owned()),
    ];
    let sorted = sort_indexed_by_name(v);
    let pairs: Vec<(&str, &str)> = sorted.iter().map(|f| (f.name.as_str(), f.url.as_str())).collect();
    assert_eq!(pairs, vec![("a", "u2"), ("b", "u1"), ("b", "u3")]);

    let d = vec![
        DownloadedFile::new(PasteFileName::Explicit("z".to_owned()), "1".to_owned()),
        DownloadedFile::new(PasteFileName::Guessed("a".to_owned()), "2".to_owned()),
    ];
    let sorted = sort_downloaded_by_name(d);
    assert_eq!(sorted[0].content, "2");
    assert_eq!(sorted[1].content, "1");
}

#[test]
fn parse_number_reads_digits_only() {
    assert_eq!(parse_number("0"), Some(0));
    assert_eq!(parse_number("907"), Some(907));
    assert_eq!(parse_number(""), None);
    assert_eq!(parse_number("12a"), None);
    assert_eq!(parse_number("-3"), None);
    assert_eq!(parse_number("99999999999999999999999999999"), None);
}

#[test]
fn usize_to_string_renders_decimal() {
    assert_eq!(usize_to_string(0), "0");
    assert_eq!(usize_to_string(7), "7");
    assert_eq!(usize_to_string(90210), "90210");
}
