use std::sync::Mutex;

use bins::{PasteUrl, Uploads, UploadsSingleFiles};
use bins::engine::{assemble_upload, build_index_file, urls_from_entries};
use bins::error::BinsError;
use bins::files::{IndexedFile, PasteFileName, UploadFile};
use bins::manifest::index_json;

/// A backend whose single-file upload succeeds, recording every call.
struct RecordingBin {
    uploaded: Mutex<Vec<UploadFile>>,
    fail_on: Option<String>,
}

impl RecordingBin {
    fn new() -> RecordingBin {
        RecordingBin { uploaded: Mutex::new(Vec::new()), fail_on: None }
    }

    fn failing_on(name: &str) -> RecordingBin {
        RecordingBin { uploaded: Mutex::new(Vec::new()), fail_on: Some(name.to_owned()) }
    }

    fn upload_count(&self) -> usize {
        self.uploaded.lock().unwrap().len()
    }
}

impl UploadsSingleFiles for RecordingBin {
    fn upload_single(&self, content: &UploadFile) -> Result<PasteUrl, BinsError> {
        self.uploaded.lock().unwrap().push(UploadFile::new(
            content.name.clone(),
            content.content.clone(),
        ));
        if self.fail_on.as_deref() == Some(content.name.as_str()) {
            return Err(BinsError::BinError(format!("refused {}", content.name)));
        }
        let url = format!("https://example.com/{}", content.content);
        Ok(PasteUrl::html(Some(PasteFileName::Explicit(content.name.clone())), url))
    }
}

fn file(name: &str, content: &str) -> UploadFile {
    UploadFile::new(name.to_owned(), content.to_owned())
}

fn url_names(urls: &[PasteUrl]) -> Vec<String> {
    urls.iter().map(|u| u.name().unwrap().name()).collect()
}

#[test]
fn upload_output_is_sorted_by_file_name() {
    let bin = RecordingBin::new();
    let files = vec![file("cherry", "3"), file("apple", "1"), file("banana", "2")];
    let urls = bin.upload(&files, false).unwrap();
    assert_eq!(url_names(&urls), vec!["apple", "banana", "cherry"]);
    // the urls follow their files through the re-sort
    assert_eq!(urls[0].url(), "https://example.com/1");
    assert_eq!(urls[1].url(), "https://example.com/2");
    assert_eq!(urls[2].url(), "https://example.com/3");
    assert_eq!(bin.upload_count(), 3);
}

#[test]
fn upload_single_file_delegates_directly() {
    let bin = RecordingBin::new();
    let files = vec![file("only", "1")];
    let urls = bin.upload(&files, true).unwrap();
    assert_eq!(bin.upload_count(), 1);
    let direct = bin.upload_single(&files[0]).unwrap();
    assert_eq!(urls, vec![direct]);
}

#[test]
fn upload_with_index_yields_only_the_index_url() {
    let bin = RecordingBin::new();
    let files = vec![file("b", "2"), file("a", "1")];
    let urls = bin.upload(&files, true).unwrap();
    assert_eq!(urls.len(), 1);
    assert_eq!(url_names(&urls), vec!["index.json"]);
    // the index itself was uploaded last, named index.json, listing the
    // sorted entries
    let recorded = bin.uploaded.lock().unwrap();
    assert_eq!(recorded.len(), 3);
    assert_eq!(recorded[2].name, "index.json");
    let expected = "[\n  {\n    \"name\": \"a\",\n    \"url\": \"https://example.com/1\"\n  },\n  {\n    \"name\": \"b\",\n    \"url\": \"https://example.com/2\"\n  }\n]";
    assert_eq!(recorded[2].content, expected);
}

#[test]
fn upload_fails_whole_batch_on_first_error() {
    let bin = RecordingBin::failing_on("banana");
    let files = vec![file("cherry", "3"), file("banana", "2"), file("apple", "1")];
    let e = bin.upload(&files, false).unwrap_err();
    assert_eq!(e, BinsError::BinError("refused banana".to_owned()));
    // every file was still attempted before the batch was drained
    assert_eq!(bin.upload_count(), 3);
}

#[test]
fn assemble_upload_pairs_each_name_with_its_url() {
    let results = vec![
        (
            "b.txt".to_owned(),
            Ok(PasteUrl::raw(None, "https://example.com/2".to_owned())),
        ),
        (
            "a.txt".to_owned(),
            Ok(PasteUrl::raw(None, "https://example.com/1".to_owned())),
        ),
    ];
    let entries = assemble_upload(results).unwrap();
    assert_eq!(
        entries,
        vec![
            IndexedFile::new("a.txt".to_owned(), "https://example.com/1".to_owned()),
            IndexedFile::new("b.txt".to_owned(), "https://example.com/2".to_owned()),
        ],
    );
}

#[test]
fn assemble_upload_returns_first_error_and_discards_successes() {
    let results = vec![
        (
            "a".to_owned(),
            Ok(PasteUrl::raw(None, "https://example.com/1".to_owned())),
        ),
        ("b".to_owned(), Err(BinsError::BinError("first".to_owned()))),
        ("c".to_owned(), Err(BinsError::BinError("second".to_owned()))),
    ];
    let e = assemble_upload(results).unwrap_err();
    assert_eq!(e, BinsError::BinError("first".to_owned()));
}

#[test]
fn assemble_upload_of_nothing_is_no_entries() {
    assert_eq!(assemble_upload(Vec::new()).unwrap(), Vec::new());
}

#[test]
fn index_file_is_named_and_holds_the_manifest() {
    let entries = vec![
        IndexedFile::new("a".to_owned(), "https://example.com/1".to_owned()),
        IndexedFile::new("b".to_owned(), "https://example.com/2".to_owned()),
    ];
    let f = build_index_file(&entries);
    assert_eq!(f.name, "index.json");
    assert_eq!(f.content, index_json(&entries));
}

#[test]
fn urls_from_entries_keeps_order_names_and_urls() {
    let entries = vec![
        IndexedFile::new("a".to_owned(), "https://example.com/1".to_owned()),
        IndexedFile::new("b".to_owned(), "https://example.com/2".to_owned()),
    ];
    let urls = urls_from_entries(entries);
    assert_eq!(
        urls,
        vec![
            PasteUrl::html(
                Some(PasteFileName::Explicit("a".to_owned())),
                "https://example.com/1".to_owned(),
            ),
            PasteUrl::html(
                Some(PasteFileName::Explicit("b".to_owned())),
                "https://example.com/2".to_owned(),
            ),
        ],
    );
}

#[test]
fn upload_empty_list_gives_empty_result() {
    let bin = RecordingBin::new();
    let urls = bin.upload(&[], false).unwrap();
    assert!(urls.is_empty());
    assert_eq!(bin.upload_count(), 0);
}
