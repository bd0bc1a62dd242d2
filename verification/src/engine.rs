//! The transfer engine: generic fan-out/fan-in logic, built once and reused
//! by every backend, that turns one-at-a-time backend operations into
//! multi-file upload and download. Work is submitted for every item before
//! any result is inspected; the first error encountered while draining
//! results fails the whole batch; and completion order is never observable,
//! because results are re-sorted by name or by the explicit selection order
//! before they are returned.

use vstd::prelude::*;
use vstd::pervasive::arbitrary;
use crate::error::BinsError;
use crate::files::{IndexedFile, UploadFile, DownloadedFile, Paste, PasteFileName};
use crate::manifest::index_json;
use crate::range::flatten_ranges;
use crate::range::flatten_range_list;
use crate::range::AnyContains;
use crate::sorting::{
    spec_sort_by,
    sorted_by_key,
    ident_key_fn,
    indexed_key_fn,
    downloaded_key_fn,
    lemma_sort_by_props,
    lemma_sort_by_projects,
    lemma_sort_by_maps,
    sort_indexed_by_name,
    sort_downloaded_by_name,
};
use crate::{
    PasteUrl,
    DownloadInfo,
    HttpResponse,
    Uploads,
    UploadsSingleFiles,
    Downloads,
    CreatesUrls,
    CreatesRawUrls,
    HasClient,
};

verus! {

// ---------------------------------------------------------------------------
// Upload path
// ---------------------------------------------------------------------------
/// The names of the files handed to an upload, in input order.
pub open spec fn file_names(files: Seq<UploadFile>) -> Seq<Seq<char>> {
    files.map_values(|f: UploadFile| f.name@)
}

/// The name each returned URL carries (empty for a nameless entry).
pub open spec fn spec_url_name(u: PasteUrl) -> Seq<char> {
    match u.spec_name() {
        Some(n) => n.spec_name(),
        None => Seq::empty(),
    }
}

/// The names of a list of returned URLs, in list order.
pub open spec fn upload_url_names(urls: Seq<PasteUrl>) -> Seq<Seq<char>> {
    urls.map_values(|u: PasteUrl| spec_url_name(u))
}

/// Upload ordering law: the name sequence of a successful multi-file upload
/// is the sorted permutation of the uploaded names — sorted by name, with
/// exactly the input names — so worker completion order is never observable.
pub proof fn lemma_upload_order(names: Seq<Seq<char>>)
    ensures
        sorted_by_key(spec_sort_by(names, ident_key_fn()), ident_key_fn()),
        spec_sort_by(names, ident_key_fn()).to_multiset() == names.to_multiset(),
        spec_sort_by(names, ident_key_fn()).len() == names.len(),
{
    lemma_sort_by_props(names, ident_key_fn());
}

/// The position of the first errored per-file result, or the batch size if
/// none errored.
pub open spec fn first_upload_error_at(results: Seq<(String, Result<PasteUrl, BinsError>)>) -> int
    decreases results.len(),
{
    if results.len() == 0 {
        0
    } else if results[0].1 is Err {
        0
    } else {
        1 + first_upload_error_at(results.drop_first())
    }
}

proof fn lemma_first_upload_error_from_scan(
    results: Seq<(String, Result<PasteUrl, BinsError>)>,
    d: int,
)
    requires
        0 <= d <= results.len(),
        forall|k: int| 0 <= k < d ==> !((#[trigger] results[k]).1 is Err),
        d < results.len() ==> results[d].1 is Err,
    ensures
        first_upload_error_at(results) == d,
    decreases d,
{
    if d > 0 {
        assert(forall|k: int|
            0 <= k < d - 1 ==> !((#[trigger] results.drop_first()[k]).1 is Err));
        lemma_first_upload_error_from_scan(results.drop_first(), d - 1);
    }
}

/// The per-file results viewed as (name, returned URL) text pairs, in
/// submission order.
pub open spec fn upload_pairs(results: Seq<(String, Result<PasteUrl, BinsError>)>) -> Seq<
    (Seq<char>, Seq<char>),
> {
    results.map_values(
        |p: (String, Result<PasteUrl, BinsError>)|
            (
                p.0@,
                match p.1 {
                    Ok(u) => u.spec_url(),
                    Err(_) => Seq::<char>::empty(),
                },
            ),
    )
}

/// The sort key of a (name, URL) text pair: the name.
pub open spec fn pair_key_fn() -> spec_fn((Seq<char>, Seq<char>)) -> Seq<char> {
    |p: (Seq<char>, Seq<char>)| p.0
}

/// A manifest entry viewed as its (name, URL) text pair.
pub open spec fn pair_view_fn() -> spec_fn(IndexedFile) -> (Seq<char>, Seq<char>) {
    |f: IndexedFile| (f.name@, f.url@)
}

/// A manifest entry list viewed as its (name, URL) text pairs.
pub open spec fn entry_views(v: Seq<IndexedFile>) -> Seq<(Seq<char>, Seq<char>)> {
    v.map_values(pair_view_fn())
}

/// Exactly what draining an upload batch returns.
///
/// The first errored per-file result fails the whole batch with that error;
/// sibling successes are discarded, never partially applied. Otherwise the
/// entries pair each submitted file name with the text of the URL its
/// upload returned, re-sorted by file name.
pub open spec fn assemble_upload_post(
    results: Seq<(String, Result<PasteUrl, BinsError>)>,
    r: Result<Vec<IndexedFile>, BinsError>,
) -> bool {
    let fe = first_upload_error_at(results);
    if fe < results.len() {
        match results[fe].1 {
            Err(e) => r == Err::<Vec<IndexedFile>, BinsError>(e),
            _ => false,
        }
    } else {
        match r {
            Ok(v) => entry_views(v@) == spec_sort_by(upload_pairs(results), pair_key_fn()),
            Err(_) => false,
        }
    }
}

/// Drains an upload batch's per-file results into the name-sorted manifest
/// entries, failing the whole batch on the first error encountered.
#[verifier::loop_isolation(false)]
pub fn assemble_upload(results: Vec<(String, Result<PasteUrl, BinsError>)>) -> (r: Result<
    Vec<IndexedFile>,
    BinsError,
>)
    ensures
        assemble_upload_post(results@, r),
{
    let n = results.len();
    let mut ix: Vec<IndexedFile> = Vec::new();
    let mut i: usize = 0;
    while i < n
        invariant
            ix@.len() == i,
            i <= n,
            forall|k: int| 0 <= k < i ==> !((#[trigger] results@[k]).1 is Err),
            forall|k: int| 0 <= k < i ==> (#[trigger] ix@[k]).name == results@[k].0,
            forall|k: int|
                0 <= k < i ==> ((#[trigger] ix@[k]).url@ == match results@[k].1 {
                    Ok(u) => u.spec_url(),
                    Err(_) => Seq::<char>::empty(),
                }),
        decreases n - i,
    {
        match &results[i].1 {
            Ok(u) => {
                let url_str = u.url().to_owned();
                let name = results[i].0.clone();
                ix.push(IndexedFile::new(name, url_str));
            },
            Err(e) => {
                proof {
                    lemma_first_upload_error_from_scan(results@, i as int);
                }
                return Err(e.clone());
            },
        }
        i = i + 1;
    }
    proof {
        lemma_first_upload_error_from_scan(results@, n as int);
    }
    let sorted = sort_indexed_by_name(ix);
    proof {
        lemma_sort_by_maps(ix@, indexed_key_fn(), pair_view_fn(), pair_key_fn());
        assert(ix@.map_values(pair_view_fn()) =~= upload_pairs(results@));
        assert(entry_views(sorted@) == spec_sort_by(upload_pairs(results@), pair_key_fn()));
    }
    Ok(sorted)
}

/// Builds the file an upload-with-index submits: named `index.json` and
/// holding the pinned manifest text of the given entries.
pub fn build_index_file(entries: &Vec<IndexedFile>) -> (f: UploadFile)
    ensures
        f.name@ == "index.json"@,
        f.content@ == crate::manifest::manifest_json(entries@),
{
    UploadFile::new("index.json".to_owned(), index_json(entries))
}

/// One display URL per manifest entry, in entry order, each carrying its
/// entry's name as an explicit name and its entry's URL.
pub fn urls_from_entries(entries: Vec<IndexedFile>) -> (r: Vec<PasteUrl>)
    ensures
        r@.len() == entries@.len(),
        forall|k: int|
            0 <= k < entries@.len() ==> #[trigger] r@[k] == (PasteUrl::Html {
                name: Some(PasteFileName::Explicit(entries@[k].name)),
                url: entries@[k].url,
            }),
{
    let mut urls: Vec<PasteUrl> = Vec::new();
    let mut k: usize = 0;
    while k < entries.len()
        invariant
            k <= entries@.len(),
            urls@.len() == k,
            forall|j: int|
                0 <= j < k ==> #[trigger] urls@[j] == (PasteUrl::Html {
                    name: Some(PasteFileName::Explicit(entries@[j].name)),
                    url: entries@[j].url,
                }),
        decreases entries@.len() - k,
    {
        let name = entries[k].name.clone();
        let url = entries[k].url.clone();
        urls.push(PasteUrl::Html { name: Some(PasteFileName::Explicit(name)), url });
        k = k + 1;
    }
    urls
}

/// The composite upload over a backend's single-file operation.
///
/// Every file is submitted before any result is inspected, and the drain
/// has `assemble_upload_post` semantics: the first error among the results
/// fails the whole batch, sibling successes discarded. On success with more
/// than one file and no index requested, the returned URLs are the drained
/// entries in name-sorted order, one `Html` URL per file with its explicit
/// name. With `index` set, the sorted manifest's pinned text is uploaded as
/// one file named `index.json`, and that single URL is the whole result. A
/// single file is delegated directly with no batching at all.
pub fn upload_with<T: UploadsSingleFiles>(bin: &T, contents: &[UploadFile], index: bool) -> (r:
    Result<Vec<PasteUrl>, BinsError>)
    ensures
        r matches Ok(urls) ==> ({
            &&& contents@.len() == 1 ==> urls@.len() == 1
            &&& index ==> urls@.len() == 1
            &&& !index && contents@.len() != 1 ==> ({
                &&& urls@.len() == contents@.len()
                &&& upload_url_names(urls@) == spec_sort_by(
                    file_names(contents@),
                    ident_key_fn(),
                )
                &&& forall|k: int|
                    0 <= k < urls@.len() ==> (#[trigger] urls@[k]) matches PasteUrl::Html {
                        name: Some(PasteFileName::Explicit(_)),
                        ..
                    }
            })
        }),
{
    let n = contents.len();
    if n == 1 {
        return match bin.upload_single(&contents[0]) {
            Ok(u) => {
                let mut v: Vec<PasteUrl> = Vec::new();
                v.push(u);
                Ok(v)
            },
            Err(e) => Err(e),
        };
    }
    // fan out: submit every file, collecting (name, result) pairs
    let mut results: Vec<(String, Result<PasteUrl, BinsError>)> = Vec::new();
    let mut i: usize = 0;
    while i < n
        invariant
            n == contents@.len(),
            i <= n,
            results@.len() == i,
            forall|k: int| 0 <= k < i ==> (#[trigger] results@[k]).0@ == contents@[k].name@,
        decreases n - i,
    {
        let name = contents[i].name.clone();
        let outcome = bin.upload_single(&contents[i]);
        results.push((name, outcome));
        i = i + 1;
    }
    // drain: the first error fails the batch, successes become the
    // name-sorted manifest entries
    let entries = match assemble_upload(results) {
        Ok(v) => v,
        Err(e) => {
            return Err(e);
        },
    };
    proof {
        let ghost pairs = upload_pairs(results@);
        lemma_sort_by_props(pairs, pair_key_fn());
        lemma_sort_by_projects(pairs, pair_key_fn());
        assert(pairs.map_values(pair_key_fn()) =~= file_names(contents@));
        // the entries' names are the input names, sorted
        assert(entries@.map_values(indexed_key_fn()) =~= entry_views(entries@).map_values(
            pair_key_fn()));
        assert(entry_views(entries@).map_values(pair_key_fn()) == spec_sort_by(
            pairs,
            pair_key_fn(),
        ).map_values(pair_key_fn()));
        assert(entries@.len() == entry_views(entries@).len());
        assert(entries@.map_values(indexed_key_fn()) == spec_sort_by(
            file_names(contents@),
            ident_key_fn(),
        ));
    }
    if index {
        let file = build_index_file(&entries);
        match bin.upload_single(&file) {
            Ok(u) => {
                let mut v: Vec<PasteUrl> = Vec::new();
                v.push(u);
                Ok(v)
            },
            Err(e) => Err(e),
        }
    } else {
        let urls = urls_from_entries(entries);
        proof {
            assert(upload_url_names(urls@) =~= entries@.map_values(indexed_key_fn()));
        }
        Ok(urls)
    }
}

impl<T: UploadsSingleFiles + Sync> Uploads for T {
    fn upload(&self, contents: &[UploadFile], index: bool) -> Result<Vec<PasteUrl>, BinsError> {
        upload_with(self, contents, index)
    }
}

// ---------------------------------------------------------------------------
// Download path: per-item decisions
// ---------------------------------------------------------------------------
/// Whether a name list carries the given name.
pub open spec fn name_listed(ns: Seq<String>, name: Seq<char>) -> bool {
    exists|k: int| 0 <= k < ns.len() && #[trigger] ns[k]@ == name
}

/// Whether the resolved entry at 0-based position `i` survives the
/// selection: under a name allow-list, an explicitly named entry must be
/// listed (entries with no name or a guessed name always survive);
/// otherwise, under a range selection, the 1-based position must lie in some
/// range; with no filter everything survives.
pub open spec fn spec_selected(url: PasteUrl, info: DownloadInfo, i: int) -> bool {
    match info.names {
        Some(ns) => match url.spec_name() {
            Some(PasteFileName::Explicit(n)) => name_listed(ns@, n@),
            _ => true,
        },
        None => match info.range {
            Some(rs) => exists|k: int|
                0 <= k < rs@.len() && #[trigger] rs@[k].spec_contains(i + 1),
            None => true,
        },
    }
}

/// What one download worker decides to do with its entry, before any
/// network traffic.
#[derive(Debug, PartialEq)]
pub enum FetchPlan {
    /// The selection excludes the entry: report it skipped, fetch nothing.
    Skip,
    /// The entry already carries its content: hand that back verbatim.
    UseDownloaded(DownloadedFile),
    /// Fetch this URL.
    Fetch(String),
}

fn list_has_name(ns: &Vec<String>, name: &String) -> (r: bool)
    ensures
        r == name_listed(ns@, name@),
{
    let mut k: usize = 0;
    while k < ns.len()
        invariant
            k <= ns@.len(),
            forall|j: int| 0 <= j < k ==> #[trigger] ns@[j]@ != name@,
        decreases ns@.len() - k,
    {
        if ns[k].eq(name) {
            return true;
        }
        k = k + 1;
    }
    false
}

/// Decides one entry's fate under the active selection. An entry that
/// already carries fetched content is never planned for a fetch: the
/// network is reached only for a selected entry without content.
pub fn plan_item(url: &PasteUrl, info: &DownloadInfo, i: usize) -> (p: FetchPlan)
    requires
        i < usize::MAX,
    ensures
        match p {
            FetchPlan::Skip => !spec_selected(*url, *info, i as int),
            FetchPlan::UseDownloaded(f) => spec_selected(*url, *info, i as int) && (*url
                matches PasteUrl::Downloaded(_, df) && df == f),
            FetchPlan::Fetch(u) => spec_selected(*url, *info, i as int) && !(*url
                matches PasteUrl::Downloaded(_, _)) && u@ == url.spec_url(),
        },
{
    let selected: bool = match &info.names {
        Some(ns) => {
            match url.name() {
                Some(PasteFileName::Explicit(n)) => list_has_name(ns, &n),
                _ => true,
            }
        },
        None => {
            match &info.range {
                Some(rs) => rs.any_contains(i + 1),
                None => true,
            }
        },
    };
    if !selected {
        return FetchPlan::Skip;
    }
    match url {
        PasteUrl::Downloaded(_, f) => FetchPlan::UseDownloaded(f.clone()),
        _ => FetchPlan::Fetch(url.url().to_owned()),
    }
}

/// Classifies one raw fetch response: a success-class status yields the
/// body as a downloaded file, named after the entry or, when the entry is
/// nameless, after the paste identifier; any other status is a protocol
/// error carrying the status code and the body.
pub fn classify_fetch(id: &str, name: Option<PasteFileName>, resp: HttpResponse) -> (r: Result<
    DownloadedFile,
    BinsError,
>)
    ensures
        match r {
            Ok(f) => 200 <= resp.status < 300 && f.content == resp.body && (match name {
                Some(n) => f.name == n,
                None => f.name matches PasteFileName::Guessed(g) && g@ == id@,
            }),
            Err(e) => !(200 <= resp.status < 300) && e == (BinsError::InvalidStatus(
                resp.status,
                Some(resp.body),
            )),
        },
{
    if 200 <= resp.status && resp.status < 300 {
        let fname = match name {
            Some(n) => n,
            None => PasteFileName::Guessed(id.to_owned()),
        };
        Ok(DownloadedFile::new(fname, resp.body))
    } else {
        Err(BinsError::InvalidStatus(resp.status, Some(resp.body)))
    }
}

// ---------------------------------------------------------------------------
// Download path: draining and assembly
// ---------------------------------------------------------------------------
/// The position of the first errored result, or the batch size if none.
pub open spec fn first_error_at(oseq: Seq<Result<Option<DownloadedFile>, BinsError>>) -> int
    decreases oseq.len(),
{
    if oseq.len() == 0 {
        0
    } else if oseq[0] is Err {
        0
    } else {
        1 + first_error_at(oseq.drop_first())
    }
}

proof fn lemma_first_error_from_scan(oseq: Seq<Result<Option<DownloadedFile>, BinsError>>, d: int)
    requires
        0 <= d <= oseq.len(),
        forall|k: int| 0 <= k < d ==> !((#[trigger] oseq[k]) is Err),
        d < oseq.len() ==> oseq[d] is Err,
    ensures
        first_error_at(oseq) == d,
    decreases d,
{
    if d > 0 {
        assert(forall|k: int|
            0 <= k < d - 1 ==> !((#[trigger] oseq.drop_first()[k]) is Err));
        lemma_first_error_from_scan(oseq.drop_first(), d - 1);
    }
}

/// The files that were actually produced, in resolved-list order.
pub open spec fn kept_files(oseq: Seq<Result<Option<DownloadedFile>, BinsError>>) -> Seq<
    DownloadedFile,
>
    decreases oseq.len(),
{
    if oseq.len() == 0 {
        Seq::empty()
    } else {
        kept_files(oseq.drop_last()) + (match oseq.last() {
            Ok(Some(f)) => seq![f],
            _ => Seq::empty(),
        })
    }
}

/// Whether a 1-based position cannot be served from the results: zero, past
/// the batch, or resolved to no file.
pub open spec fn bad_pos(oseq: Seq<Result<Option<DownloadedFile>, BinsError>>, p: usize) -> bool {
    p == 0 || p > oseq.len() || !(oseq[p - 1] matches Ok(Some(_)))
}

/// The index of the first unservable position in the flat order, or its
/// length if every position can be served.
pub open spec fn first_bad_pos_at(
    oseq: Seq<Result<Option<DownloadedFile>, BinsError>>,
    order: Seq<usize>,
) -> int
    decreases order.len(),
{
    if order.len() == 0 {
        0
    } else if bad_pos(oseq, order[0]) {
        0
    } else {
        1 + first_bad_pos_at(oseq, order.drop_first())
    }
}

proof fn lemma_first_bad_from_scan(
    oseq: Seq<Result<Option<DownloadedFile>, BinsError>>,
    order: Seq<usize>,
    d: int,
)
    requires
        0 <= d <= order.len(),
        forall|k: int| 0 <= k < d ==> !bad_pos(oseq, #[trigger] order[k]),
        d < order.len() ==> bad_pos(oseq, order[d]),
    ensures
        first_bad_pos_at(oseq, order) == d,
    decreases d,
{
    if d > 0 {
        assert(forall|k: int|
            0 <= k < d - 1 ==> !bad_pos(oseq, #[trigger] order.drop_first()[k]));
        lemma_first_bad_from_scan(oseq, order.drop_first(), d - 1);
    }
}

/// The file a servable 1-based position names.
pub open spec fn file_at(
    oseq: Seq<Result<Option<DownloadedFile>, BinsError>>,
    p: usize,
) -> DownloadedFile {
    match oseq[p - 1] {
        Ok(Some(f)) => f,
        _ => arbitrary(),
    }
}

/// The output of a range-ordered download: one file per position of the
/// flat order, repeats included.
pub open spec fn ordered_files(
    oseq: Seq<Result<Option<DownloadedFile>, BinsError>>,
    order: Seq<usize>,
) -> Seq<DownloadedFile> {
    Seq::new(order.len(), |k: int| file_at(oseq, order[k]))
}

/// How a final file list becomes a `Paste`: an empty list is the distinct
/// filter-too-strict error, exactly one file is `Single`, more are
/// `Multiple` in the order given.
pub open spec fn paste_of(files: Seq<DownloadedFile>, r: Result<Paste, BinsError>) -> bool {
    if files.len() == 0 {
        r == Err::<Paste, BinsError>(BinsError::FilterTooStrict)
    } else if files.len() == 1 {
        r == Ok::<Paste, BinsError>(Paste::Single(files[0]))
    } else {
        match r {
            Ok(Paste::Multiple(v)) => v@ == files,
            _ => false,
        }
    }
}

/// Exactly what draining a download batch returns.
///
/// The first errored result fails the batch with that error. Otherwise,
/// under a range selection the output follows the flattened, possibly
/// repeating, possibly descending position order exactly, and a position
/// that cannot be served — zero, past the resolved set, or skipped — is a
/// range-out-of-bounds error naming the first such position; with no range
/// selection the produced files are re-sorted by name. An empty final list
/// is the filter-too-strict error.
pub open spec fn assemble_post(
    oseq: Seq<Result<Option<DownloadedFile>, BinsError>>,
    info: DownloadInfo,
    r: Result<Paste, BinsError>,
) -> bool {
    let fe = first_error_at(oseq);
    if fe < oseq.len() {
        match oseq[fe] {
            Err(e) => r == Err::<Paste, BinsError>(e),
            _ => false,
        }
    } else {
        match info.range {
            Some(rs) => {
                let order = flatten_ranges(rs@);
                let bad = first_bad_pos_at(oseq, order);
                if bad < order.len() {
                    r == Err::<Paste, BinsError>(BinsError::RangeOutOfBounds(order[bad]))
                } else {
                    paste_of(ordered_files(oseq, order), r)
                }
            },
            None => paste_of(spec_sort_by(kept_files(oseq), downloaded_key_fn()), r),
        }
    }
}

/// Drains a download batch's per-item results into the final `Paste`.
#[verifier::loop_isolation(false)]
pub fn assemble_download(
    outcomes: Vec<Result<Option<DownloadedFile>, BinsError>>,
    info: &DownloadInfo,
) -> (r: Result<Paste, BinsError>)
    ensures
        assemble_post(outcomes@, *info, r),
{
    let oseq_len = outcomes.len();
    // the first error encountered fails the whole batch
    let mut i: usize = 0;
    while i < oseq_len
        invariant
            oseq_len == outcomes@.len(),
            i <= oseq_len,
            forall|k: int| 0 <= k < i ==> !((#[trigger] outcomes@[k]) is Err),
        decreases oseq_len - i,
    {
        match &outcomes[i] {
            Err(e) => {
                proof {
                    lemma_first_error_from_scan(outcomes@, i as int);
                }
                return Err(e.clone());
            },
            _ => {},
        }
        i = i + 1;
    }
    proof {
        lemma_first_error_from_scan(outcomes@, oseq_len as int);
    }
    match &info.range {
        Some(rs) => {
            let order = flatten_range_list(rs);
            let mut contents: Vec<DownloadedFile> = Vec::new();
            let mut k: usize = 0;
            while k < order.len()
                invariant
                    order@ == flatten_ranges(rs@),
                    oseq_len == outcomes@.len(),
                    k <= order@.len(),
                    contents@.len() == k,
                    forall|j: int| 0 <= j < k ==> !bad_pos(outcomes@, #[trigger] order@[j]),
                    forall|j: int|
                        0 <= j < k ==> #[trigger] contents@[j] == file_at(outcomes@, order@[j]),
                decreases order@.len() - k,
            {
                let p = order[k];
                if p == 0 || p > oseq_len {
                    proof {
                        lemma_first_bad_from_scan(outcomes@, order@, k as int);
                    }
                    return Err(BinsError::RangeOutOfBounds(p));
                }
                match &outcomes[p - 1] {
                    Ok(Some(f)) => {
                        contents.push(f.clone());
                    },
                    _ => {
                        proof {
                            lemma_first_bad_from_scan(outcomes@, order@, k as int);
                        }
                        return Err(BinsError::RangeOutOfBounds(p));
                    },
                }
                k = k + 1;
            }
            proof {
                lemma_first_bad_from_scan(outcomes@, order@, order@.len() as int);
                assert(contents@ =~= ordered_files(outcomes@, order@));
            }
            finish_paste(contents)
        },
        None => {
            let mut contents: Vec<DownloadedFile> = Vec::new();
            let mut k: usize = 0;
            while k < oseq_len
                invariant
                    oseq_len == outcomes@.len(),
                    k <= oseq_len,
                    contents@ == kept_files(outcomes@.take(k as int)),
                decreases oseq_len - k,
            {
                match &outcomes[k] {
                    Ok(Some(f)) => {
                        contents.push(f.clone());
                    },
                    _ => {},
                }
                proof {
                    assert(outcomes@.take(k + 1).drop_last() =~= outcomes@.take(k as int));
                    assert(outcomes@.take(k + 1).last() == outcomes@[k as int]);
                    assert(contents@ =~= kept_files(outcomes@.take(k + 1)));
                }
                k = k + 1;
            }
            proof {
                assert(outcomes@.take(oseq_len as int) =~= outcomes@);
            }
            let sorted = sort_downloaded_by_name(contents);
            finish_paste(sorted)
        },
    }
}

/// Shapes the final file list: empty is the filter error, one file is
/// `Single`, more are `Multiple`.
fn finish_paste(files: Vec<DownloadedFile>) -> (r: Result<Paste, BinsError>)
    ensures
        paste_of(files@, r),
{
    if files.len() == 0 {
        Err(BinsError::FilterTooStrict)
    } else if files.len() == 1 {
        let mut files = files;
        let f = files.remove(0);
        Ok(Paste::Single(f))
    } else {
        Ok(Paste::Multiple(files))
    }
}

/// The composite download over a backend's URL resolution and transport.
///
/// Resolves the identifier once, decides every entry's fate under the
/// selection without any coordination between entries, fetches only what the
/// plan asks for, and assembles the results with `assemble_post` semantics:
/// range order is followed exactly when a range selection is active, and
/// everything else is re-sorted by name.
pub fn download_with<T: CreatesRawUrls + HasClient>(bin: &T, id: &str, info: &DownloadInfo) -> (r:
    Result<Paste, BinsError>)
    ensures
        r matches Ok(Paste::Multiple(fs)) ==> ({
            &&& fs@.len() >= 2
            &&& info.range is None ==> sorted_by_key(fs@, downloaded_key_fn())
            &&& info.range matches Some(rs) ==> fs@.len() == flatten_ranges(rs@).len()
        }),
        info.range matches Some(rs) ==> (r is Ok ==> flatten_ranges(rs@).len() >= 1),
{
    let urls = match bin.create_raw_url(id) {
        Ok(u) => u,
        Err(e) => {
            return Err(e);
        },
    };
    let mut outcomes: Vec<Result<Option<DownloadedFile>, BinsError>> = Vec::new();
    let mut i: usize = 0;
    while i < urls.len()
        invariant
            i <= urls@.len(),
        decreases urls@.len() - i,
    {
        let plan = plan_item(&urls[i], info, i);
        match plan {
            FetchPlan::Skip => {
                outcomes.push(Ok(None));
            },
            FetchPlan::UseDownloaded(f) => {
                outcomes.push(Ok(Some(f)));
            },
            FetchPlan::Fetch(u) => {
                match bin.fetch(u.as_str()) {
                    Ok(resp) => {
                        let name = urls[i].name();
                        match classify_fetch(id, name, resp) {
                            Ok(f) => outcomes.push(Ok(Some(f))),
                            Err(e) => outcomes.push(Err(e)),
                        }
                    },
                    Err(e) => {
                        outcomes.push(Err(e));
                    },
                }
            },
        }
        i = i + 1;
    }
    let r = assemble_download(outcomes, info);
    proof {
        lemma_sort_by_props(kept_files(outcomes@), downloaded_key_fn());
    }
    r
}

impl<T: CreatesUrls + HasClient + Sync> Downloads for T {
    fn download(&self, id: &str, info: &DownloadInfo) -> Result<Paste, BinsError> {
        download_with(self, id, info)
    }
}

} // verus!
