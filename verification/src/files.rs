//! The file values that flow through a transfer: what the caller hands the
//! engine for an upload, and what the engine hands back from a download.

use vstd::prelude::*;

verus! {

/// One entry of an upload manifest: a file name and the URL the file was
/// posted to.
#[derive(Debug, PartialEq)]
pub struct IndexedFile {
    pub name: String,
    pub url: String,
}

impl IndexedFile {
    pub fn new(name: String, url: String) -> (r: IndexedFile)
        ensures
            r.name == name,
            r.url == url,
    {
        IndexedFile { name, url }
    }
}

impl Clone for IndexedFile {
    fn clone(&self) -> (r: Self)
        ensures
            r == *self,
    {
        IndexedFile { name: self.name.clone(), url: self.url.clone() }
    }
}

/// An in-memory file the caller wants uploaded; immutable during a transfer.
#[derive(Debug, PartialEq)]
pub struct UploadFile {
    pub name: String,
    pub content: String,
}

impl UploadFile {
    pub fn new(name: String, content: String) -> (r: UploadFile)
        ensures
            r.name == name,
            r.content == content,
    {
        UploadFile { name, content }
    }
}

impl Clone for UploadFile {
    fn clone(&self) -> (r: Self)
        ensures
            r == *self,
    {
        UploadFile { name: self.name.clone(), content: self.content.clone() }
    }
}

/// A remote file's name: either reported outright, or synthesized by the
/// engine as a fallback (typically from the paste identifier). Comparisons
/// and display use only the wrapped string.
#[derive(Debug, PartialEq)]
pub enum PasteFileName {
    Explicit(String),
    Guessed(String),
}

impl PasteFileName {
    /// The wrapped string.
    pub open spec fn spec_name(&self) -> Seq<char> {
        match self {
            PasteFileName::Explicit(n) => n@,
            PasteFileName::Guessed(n) => n@,
        }
    }

    pub fn name(&self) -> (r: String)
        ensures
            r@ == self.spec_name(),
    {
        match self {
            PasteFileName::Explicit(n) => n.clone(),
            PasteFileName::Guessed(n) => n.clone(),
        }
    }
}

impl Clone for PasteFileName {
    fn clone(&self) -> (r: Self)
        ensures
            r == *self,
    {
        match self {
            PasteFileName::Explicit(n) => PasteFileName::Explicit(n.clone()),
            PasteFileName::Guessed(n) => PasteFileName::Guessed(n.clone()),
        }
    }
}

/// One file fetched by a download, owned by the caller once returned.
#[derive(Debug, PartialEq)]
pub struct DownloadedFile {
    pub name: PasteFileName,
    pub content: String,
}

impl DownloadedFile {
    pub fn new(name: PasteFileName, content: String) -> (r: DownloadedFile)
        ensures
            r.name == name,
            r.content == content,
    {
        DownloadedFile { name, content }
    }
}

impl Clone for DownloadedFile {
    fn clone(&self) -> (r: Self)
        ensures
            r == *self,
    {
        DownloadedFile { name: self.name.clone(), content: self.content.clone() }
    }
}

/// The result of a download: `Single` when exactly one file resolved,
/// `Multiple` otherwise. The distinction is structural, not configurable.
#[derive(Debug, PartialEq)]
pub enum Paste {
    Single(DownloadedFile),
    Multiple(Vec<DownloadedFile>),
}

} // verus!
