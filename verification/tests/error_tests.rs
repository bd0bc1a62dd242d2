use bins::error::{error_parents, BinsError};

#[test]
fn messages_name_the_failure() {
    assert_eq!(
        BinsError::Transport("connection refused".to_owned()).message(),
        "network error during transfer: connection refused",
    );
    assert_eq!(
        BinsError::InvalidStatus(404, None).message(),
        "the bin responded with an invalid status (404)",
    );
    assert_eq!(
        BinsError::InvalidStatus(500, Some("oops".to_owned())).message(),
        "the bin responded with an invalid status (500)\nthe bin also included this content with the error:\n\noops",
    );
    assert_eq!(BinsError::BinError("quota".to_owned()).message(), "quota");
    assert_eq!(
        BinsError::RangeOutOfBounds(17).message(),
        "no file exists at position 17",
    );
    assert_eq!(
        BinsError::FilterTooStrict.message(),
        "the given filter excluded every file",
    );
    assert_eq!(
        BinsError::BadRangeNumber("x".to_owned()).message(),
        "bad number in range: x",
    );
    assert_eq!(BinsError::BadRange.message(), "range had too many components");
}

#[test]
fn error_parents_walks_the_cause_chain() {
    let root = BinsError::Transport("reset".to_owned());
    let mid = BinsError::Chained("fetching".to_owned(), Box::new(root.clone()));
    let top = BinsError::Chained("downloading".to_owned(), Box::new(mid.clone()));
    let parents = error_parents(&top);
    assert_eq!(parents, vec![&mid, &root]);
    assert!(error_parents(&root).is_empty());
}

#[test]
fn cause_is_only_the_direct_wrap() {
    let root = BinsError::Other;
    let top = BinsError::Chained("outer".to_owned(), Box::new(root.clone()));
    assert_eq!(top.cause(), Some(&root));
    assert_eq!(root.cause(), None);
    assert_eq!(top.message(), "outer");
}

#[test]
fn json_error_keeps_message_and_causes() {
    let e = bins::json::Error::new(
        "boom".to_owned(),
        vec!["cause one".to_owned(), "cause two".to_owned()],
    );
    assert_eq!(e.message, "boom");
    assert_eq!(e.causes, vec!["cause one".to_owned(), "cause two".to_owned()]);
}
