//! A paste-sharing client library: a capability interface that lets
//! heterogeneous paste-hosting services ("bins") be driven uniformly, and a
//! transfer engine that turns a backend's one-file-at-a-time operations into
//! multi-file upload and download with deterministic ordering and
//! first-error-wins aggregation.

use vstd::prelude::*;

pub mod config;
pub mod engine;
pub mod error;
pub mod files;
pub mod json;
pub mod manifest;
pub mod range;
pub mod sorting;
pub mod strutil;
pub mod urls;

use crate::error::BinsError;
use crate::files::{UploadFile, DownloadedFile, Paste, PasteFileName};
use crate::range::BidirectionalRange;

verus! {

/// A backend's identity: its name, and the two domains by which an input URL
/// is recognized as belonging to it.
pub trait Bin: Uploads + Downloads + ManagesUrls + HasFeatures {
    fn name(&self) -> &str;

    fn html_host(&self) -> &str;

    fn raw_host(&self) -> &str;
}

pub trait ManagesUrls: FormatsUrls + CreatesUrls {

}

pub trait CreatesUrls: CreatesHtmlUrls + CreatesRawUrls {

}

/// Resolution of an identifier into addressable display files, possibly over
/// the network, and the inverse parsing of a display URL.
pub trait CreatesHtmlUrls {
    fn create_html_url(&self, id: &str) -> Result<Vec<PasteUrl>, BinsError>;

    fn id_from_html_url(&self, url: &str) -> Option<String>;
}

/// Resolution of an identifier into raw-content files, possibly over the
/// network, and the inverse parsing of a raw URL. The resolved list's order
/// must be stable across calls for the same identifier.
pub trait CreatesRawUrls {
    fn create_raw_url(&self, id: &str) -> Result<Vec<PasteUrl>, BinsError>;

    fn id_from_raw_url(&self, url: &str) -> Option<String>;
}

pub trait FormatsUrls: FormatsHtmlUrls + FormatsRawUrls {

}

/// Pure, no-network construction of a display URL from an identifier, when
/// the backend's scheme permits the shortcut.
pub trait FormatsHtmlUrls {
    fn format_html_url(&self, id: &str) -> Option<String>;
}

/// Pure, no-network construction of a raw URL from an identifier, when the
/// backend's scheme permits the shortcut.
pub trait FormatsRawUrls {
    fn format_raw_url(&self, id: &str) -> Option<String>;
}

/// Feature advertisement; the caller uses it to warn or refuse, the engine
/// itself does not enforce it.
pub trait HasFeatures {
    fn features(&self) -> Vec<BinFeature>;
}

/// The composite multi-file upload. Backends with native multi-file support
/// implement this themselves; everything else gets it from the engine's
/// blanket implementation over [`UploadsSingleFiles`].
pub trait Uploads {
    fn upload(&self, contents: &[UploadFile], index: bool) -> Result<Vec<PasteUrl>, BinsError>;
}

/// A backend's single-file upload operation; the engine supplies batching.
pub trait UploadsSingleFiles {
    fn upload_single(&self, content: &UploadFile) -> Result<PasteUrl, BinsError>;
}

/// The composite download, supplied by the engine's blanket implementation.
pub trait Downloads {
    fn download(&self, id: &str, info: &DownloadInfo) -> Result<Paste, BinsError>;
}

/// One full response of the transport a backend owns: the status code and
/// the UTF-8 body.
#[derive(Debug, PartialEq)]
pub struct HttpResponse {
    pub status: u16,
    pub body: String,
}

/// The network transport a backend owns, shared read-only by all of a
/// batch's fetches: one request/response exchange against a raw-content URL.
/// A transport failure is an error; any status at all may come back and is
/// classified by the engine.
pub trait HasClient {
    fn fetch(&self, url: &str) -> Result<HttpResponse, BinsError>;
}

/// The selection a download applies to the resolved file list: no filter, an
/// explicit name allow-list, or an ordered list of position ranges.
#[derive(Debug, PartialEq)]
pub struct DownloadInfo {
    pub names: Option<Vec<String>>,
    pub range: Option<Vec<BidirectionalRange>>,
}

impl DownloadInfo {
    /// A selection that keeps only files whose reported name is listed.
    pub fn names(names: &[&str]) -> (r: DownloadInfo)
        ensures
            r.range is None,
            match r.names {
                Some(ns) => ns@.len() == names@.len() && forall|k: int|
                    0 <= k < names@.len() ==> #[trigger] ns@[k]@ == names@[k]@,
                None => false,
            },
    {
        let mut ns: Vec<String> = Vec::new();
        let mut i: usize = 0;
        while i < names.len()
            invariant
                i <= names@.len(),
                ns@.len() == i,
                forall|k: int| 0 <= k < i ==> #[trigger] ns@[k]@ == names@[k]@,
            decreases names@.len() - i,
        {
            ns.push(names[i].to_owned());
            i = i + 1;
        }
        DownloadInfo { names: Some(ns), range: None }
    }

    /// A selection by position ranges, evaluated in list order.
    pub fn range(range: &[BidirectionalRange]) -> (r: DownloadInfo)
        ensures
            r.names is None,
            match r.range {
                Some(rs) => rs@ == range@,
                None => false,
            },
    {
        let mut rs: Vec<BidirectionalRange> = Vec::new();
        let mut i: usize = 0;
        while i < range.len()
            invariant
                i <= range@.len(),
                rs@ =~= range@.take(i as int),
            decreases range@.len() - i,
        {
            rs.push(range[i]);
            proof {
                assert(rs@ =~= range@.take(i + 1));
            }
            i = i + 1;
        }
        proof {
            assert(rs@ =~= range@);
        }
        DownloadInfo { names: None, range: Some(rs) }
    }

    /// No filter: every resolved file is kept.
    pub fn empty() -> (r: DownloadInfo)
        ensures
            r.names is None,
            r.range is None,
    {
        DownloadInfo { names: None, range: None }
    }
}

impl Default for DownloadInfo {
    fn default() -> (r: Self)
        ensures
            r.names is None,
            r.range is None,
    {
        DownloadInfo::empty()
    }
}

/// What a backend can do, advertised to the caller.
#[derive(Debug, Clone, Copy, PartialEq, Eq, Hash, Structural)]
pub enum BinFeature {
    Private,
    Public,
    Authed,
    Anonymous,
    MultiFile,
    SingleNaming,
}

impl BinFeature {
    /// The feature's short human-readable description.
    pub fn description(&self) -> (r: String)
        ensures
            match *self {
                BinFeature::Private => r@ == "private"@,
                BinFeature::Public => r@ == "public"@,
                BinFeature::Authed => r@ == "authed"@,
                BinFeature::Anonymous => r@ == "anonymous"@,
                BinFeature::MultiFile => r@ == "multiple-file"@,
                BinFeature::SingleNaming => r@ == "single-file named"@,
            },
    {
        match self {
            BinFeature::Private => "private".to_owned(),
            BinFeature::Public => "public".to_owned(),
            BinFeature::Authed => "authed".to_owned(),
            BinFeature::Anonymous => "anonymous".to_owned(),
            BinFeature::MultiFile => "multiple-file".to_owned(),
            BinFeature::SingleNaming => "single-file named".to_owned(),
        }
    }
}

/// One addressable remote file, as a backend reports it: a display URL, a
/// raw-content URL, or content already fetched as a side effect of resolving
/// the file list, which lets the engine skip a redundant round trip.
#[derive(Debug, PartialEq)]
pub enum PasteUrl {
    Html { name: Option<PasteFileName>, url: String },
    Raw { name: Option<PasteFileName>, url: String },
    Downloaded(String, DownloadedFile),
}

impl PasteUrl {
    pub fn html(name: Option<PasteFileName>, url: String) -> (r: PasteUrl)
        ensures
            r == (PasteUrl::Html { name, url }),
    {
        PasteUrl::Html { name, url }
    }

    pub fn raw(name: Option<PasteFileName>, url: String) -> (r: PasteUrl)
        ensures
            r == (PasteUrl::Raw { name, url }),
    {
        PasteUrl::Raw { name, url }
    }

    /// The name this entry reports, if any; a `Downloaded` entry reports its
    /// file's name.
    pub open spec fn spec_name(&self) -> Option<PasteFileName> {
        match self {
            PasteUrl::Html { name, .. } => *name,
            PasteUrl::Raw { name, .. } => *name,
            PasteUrl::Downloaded(_, file) => Some(file.name),
        }
    }

    pub fn name(&self) -> (r: Option<PasteFileName>)
        ensures
            r == self.spec_name(),
    {
        match self {
            PasteUrl::Html { name, .. } => match name {
                Some(n) => Some(n.clone()),
                None => None,
            },
            PasteUrl::Raw { name, .. } => match name {
                Some(n) => Some(n.clone()),
                None => None,
            },
            PasteUrl::Downloaded(_, file) => Some(file.name.clone()),
        }
    }

    /// The URL this entry addresses.
    pub open spec fn spec_url(&self) -> Seq<char> {
        match self {
            PasteUrl::Html { url, .. } => url@,
            PasteUrl::Raw { url, .. } => url@,
            PasteUrl::Downloaded(url, _) => url@,
        }
    }

    pub fn url(&self) -> (r: &str)
        ensures
            r@ == self.spec_url(),
    {
        match self {
            PasteUrl::Html { url, .. } => url.as_str(),
            PasteUrl::Raw { url, .. } => url.as_str(),
            PasteUrl::Downloaded(url, _) => url.as_str(),
        }
    }
}

impl Clone for PasteUrl {
    fn clone(&self) -> (r: Self)
        ensures
            r == *self,
    {
        match self {
            PasteUrl::Html { name, url } => PasteUrl::Html {
                name: match name {
                    Some(n) => Some(n.clone()),
                    None => None,
                },
                url: url.clone(),
            },
            PasteUrl::Raw { name, url } => PasteUrl::Raw {
                name: match name {
                    Some(n) => Some(n.clone()),
                    None => None,
                },
                url: url.clone(),
            },
            PasteUrl::Downloaded(url, file) => PasteUrl::Downloaded(url.clone(), file.clone()),
        }
    }
}

} // verus!
