use std::collections::HashMap;
use std::sync::Mutex;

use bins::{
    CreatesHtmlUrls,
    CreatesRawUrls,
    CreatesUrls,
    DownloadInfo,
    Downloads,
    HasClient,
    HttpResponse,
    PasteUrl,
};
use bins::error::BinsError;
use bins::files::{DownloadedFile, Paste, PasteFileName};
use bins::range::BidirectionalRange;

/// A backend that resolves a fixed file list and serves canned responses,
/// recording every fetched URL.
struct CannedBin {
    resolved: Vec<PasteUrl>,
    responses: HashMap<String, HttpResponse>,
    fetched: Mutex<Vec<String>>,
}

impl CannedBin {
    fn new(resolved: Vec<PasteUrl>) -> CannedBin {
        CannedBin { resolved, responses: HashMap::new(), fetched: Mutex::new(Vec::new()) }
    }

    fn respond(mut self, url: &str, status: u16, body: &str) -> CannedBin {
        self.responses.insert(
            url.to_owned(),
            HttpResponse { status, body: body.to_owned() },
        );
        self
    }

    fn fetched_urls(&self) -> Vec<String> {
        self.fetched.lock().unwrap().clone()
    }
}

impl CreatesRawUrls for CannedBin {
    fn create_raw_url(&self, _id: &str) -> Result<Vec<PasteUrl>, BinsError> {
        let mut out = Vec::new();
        for u in &self.resolved {
            out.push(u.clone());
        }
        Ok(out)
    }

    fn id_from_raw_url(&self, _url: &str) -> Option<String> {
        None
    }
}

impl CreatesHtmlUrls for CannedBin {
    fn create_html_url(&self, id: &str) -> Result<Vec<PasteUrl>, BinsError> {
        self.create_raw_url(id)
    }

    fn id_from_html_url(&self, _url: &str) -> Option<String> {
        None
    }
}

impl CreatesUrls for CannedBin {}

impl HasClient for CannedBin {
    fn fetch(&self, url: &str) -> Result<HttpResponse, BinsError> {
        self.fetched.lock().unwrap().push(url.to_owned());
        match self.responses.get(url) {
            Some(r) => Ok(HttpResponse { status: r.status, body: r.body.clone() }),
            None => panic!("unexpected fetch of {}", url),
        }
    }
}

fn raw(name: &str, url: &str) -> PasteUrl {
    PasteUrl::raw(Some(PasteFileName::Explicit(name.to_owned())), url.to_owned())
}

fn three_file_bin() -> CannedBin {
    CannedBin::new(vec![
        raw("first.txt", "https://example.com/raw/1"),
        raw("second.txt", "https://example.com/raw/2"),
        raw("third.txt", "https://example.com/raw/3"),
    ])
    .respond("https://example.com/raw/1", 200, "one")
    .respond("https://example.com/raw/2", 200, "two")
    .respond("https://example.com/raw/3", 200, "three")
}

fn contents(p: &Paste) -> Vec<(String, String)> {
    match p {
        Paste::Single(f) => vec![(f.name.name(), f.content.clone())],
        Paste::Multiple(fs) => fs.iter().map(|f| (f.name.name(), f.content.clone())).collect(),
    }
}

#[test]
fn download_descending_range_follows_range_order() {
    let bin = three_file_bin();
    let info = DownloadInfo::range(&[BidirectionalRange::new(3, 1)]);
    let paste = bin.download("id", &info).unwrap();
    assert_eq!(
        contents(&paste),
        vec![
            ("third.txt".to_owned(), "three".to_owned()),
            ("second.txt".to_owned(), "two".to_owned()),
            ("first.txt".to_owned(), "one".to_owned()),
        ],
    );
}

#[test]
fn download_repeated_position_yields_item_twice() {
    let bin = three_file_bin();
    let info = DownloadInfo::range(&[
        BidirectionalRange::new(1, 1),
        BidirectionalRange::new(1, 1),
    ]);
    let paste = bin.download("id", &info).unwrap();
    assert_eq!(
        contents(&paste),
        vec![
            ("first.txt".to_owned(), "one".to_owned()),
            ("first.txt".to_owned(), "one".to_owned()),
        ],
    );
}

#[test]
fn download_position_beyond_resolved_files_is_out_of_bounds() {
    let bin = three_file_bin();
    let info = DownloadInfo::range(&[BidirectionalRange::new(2, 5)]);
    let e = bin.download("id", &info).unwrap_err();
    assert_eq!(e, BinsError::RangeOutOfBounds(4));
}

#[test]
fn download_position_zero_is_out_of_bounds() {
    let bin = three_file_bin();
    let info = DownloadInfo::range(&[BidirectionalRange::new(0, 1)]);
    let e = bin.download("id", &info).unwrap_err();
    assert_eq!(e, BinsError::RangeOutOfBounds(0));
}

#[test]
fn download_range_skips_unselected_fetches() {
    let bin = three_file_bin();
    let info = DownloadInfo::range(&[BidirectionalRange::new(2, 2)]);
    let paste = bin.download("id", &info).unwrap();
    assert_eq!(contents(&paste), vec![("second.txt".to_owned(), "two".to_owned())]);
    assert_eq!(bin.fetched_urls(), vec!["https://example.com/raw/2".to_owned()]);
}

#[test]
fn download_name_filter_matching_nothing_is_filter_too_strict() {
    let bin = three_file_bin();
    let info = DownloadInfo::names(&["missing.txt"]);
    let e = bin.download("id", &info).unwrap_err();
    assert_eq!(e, BinsError::FilterTooStrict);
    assert!(bin.fetched_urls().is_empty());
}

#[test]
fn download_name_filter_keeps_only_listed_files() {
    let bin = three_file_bin();
    let info = DownloadInfo::names(&["third.txt", "first.txt"]);
    let paste = bin.download("id", &info).unwrap();
    // with no range selection the output is sorted by name
    assert_eq!(
        contents(&paste),
        vec![
            ("first.txt".to_owned(), "one".to_owned()),
            ("third.txt".to_owned(), "three".to_owned()),
        ],
    );
}

#[test]
fn download_unfiltered_is_sorted_by_name() {
    let bin = CannedBin::new(vec![
        raw("zeta", "https://example.com/raw/z"),
        raw("alpha", "https://example.com/raw/a"),
    ])
    .respond("https://example.com/raw/z", 200, "z-body")
    .respond("https://example.com/raw/a", 200, "a-body");
    let paste = bin.download("id", &DownloadInfo::empty()).unwrap();
    assert_eq!(
        contents(&paste),
        vec![
            ("alpha".to_owned(), "a-body".to_owned()),
            ("zeta".to_owned(), "z-body".to_owned()),
        ],
    );
}

#[test]
fn download_single_survivor_is_single_paste() {
    let bin = three_file_bin();
    let info = DownloadInfo::names(&["second.txt"]);
    let paste = bin.download("id", &info).unwrap();
    assert!(matches!(paste, Paste::Single(_)));
}

#[test]
fn download_already_downloaded_entry_never_fetches() {
    // no canned response for the downloaded entry: a fetch would panic
    let bin = CannedBin::new(vec![
        PasteUrl::Downloaded(
            "https://example.com/raw/pre".to_owned(),
            DownloadedFile::new(PasteFileName::Explicit("pre.txt".to_owned()), "cached".to_owned()),
        ),
        raw("live.txt", "https://example.com/raw/live"),
    ])
    .respond("https://example.com/raw/live", 200, "fresh");
    let paste = bin.download("id", &DownloadInfo::empty()).unwrap();
    assert_eq!(
        contents(&paste),
        vec![
            ("live.txt".to_owned(), "fresh".to_owned()),
            ("pre.txt".to_owned(), "cached".to_owned()),
        ],
    );
    assert_eq!(bin.fetched_urls(), vec!["https://example.com/raw/live".to_owned()]);
}

#[test]
fn download_non_success_status_is_invalid_status_error() {
    let bin = CannedBin::new(vec![raw("gone.txt", "https://example.com/raw/gone")])
        .respond("https://example.com/raw/gone", 404, "not here");
    let e = bin.download("id", &DownloadInfo::empty()).unwrap_err();
    assert_eq!(e, BinsError::InvalidStatus(404, Some("not here".to_owned())));
}

#[test]
fn download_nameless_entry_is_named_after_the_id() {
    let bin = CannedBin::new(vec![PasteUrl::raw(None, "https://example.com/raw/x".to_owned())])
        .respond("https://example.com/raw/x", 200, "body");
    let paste = bin.download("abc123", &DownloadInfo::empty()).unwrap();
    match paste {
        Paste::Single(f) => {
            assert_eq!(f.name, PasteFileName::Guessed("abc123".to_owned()));
            assert_eq!(f.content, "body");
        },
        Paste::Multiple(_) => panic!("expected a single file"),
    }
}

/// A backend whose transport always fails.
struct DeadTransportBin {
    resolved: Vec<PasteUrl>,
}

impl CreatesRawUrls for DeadTransportBin {
    fn create_raw_url(&self, _id: &str) -> Result<Vec<PasteUrl>, BinsError> {
        let mut out = Vec::new();
        for u in &self.resolved {
            out.push(u.clone());
        }
        Ok(out)
    }

    fn id_from_raw_url(&self, _url: &str) -> Option<String> {
        None
    }
}

impl CreatesHtmlUrls for DeadTransportBin {
    fn create_html_url(&self, id: &str) -> Result<Vec<PasteUrl>, BinsError> {
        self.create_raw_url(id)
    }

    fn id_from_html_url(&self, _url: &str) -> Option<String> {
        None
    }
}

impl CreatesUrls for DeadTransportBin {}

impl HasClient for DeadTransportBin {
    fn fetch(&self, _url: &str) -> Result<HttpResponse, BinsError> {
        Err(BinsError::Transport("connection refused".to_owned()))
    }
}

#[test]
fn download_transport_failure_fails_the_batch() {
    let bin = DeadTransportBin { resolved: vec![raw("a", "https://example.com/raw/a")] };
    let e = bin.download("id", &DownloadInfo::empty()).unwrap_err();
    assert_eq!(e, BinsError::Transport("connection refused".to_owned()));
}

#[test]
fn download_fetch_error_takes_precedence_over_range_checks() {
    // the fetch of the selected file fails; the out-of-range position in the
    // same selection is only reported when every result arrived
    let bin = DeadTransportBin {
        resolved: vec![raw("a", "https://example.com/raw/a")],
    };
    let info = DownloadInfo::range(&[
        BidirectionalRange::new(1, 1),
        BidirectionalRange::new(9, 9),
    ]);
    let e = bin.download("id", &info).unwrap_err();
    assert_eq!(e, BinsError::Transport("connection refused".to_owned()));
}

#[test]
fn download_empty_resolution_is_filter_too_strict() {
    let bin = CannedBin::new(Vec::new());
    let e = bin.download("id", &DownloadInfo::empty()).unwrap_err();
    assert_eq!(e, BinsError::FilterTooStrict);
}
