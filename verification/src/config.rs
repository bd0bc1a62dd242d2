//! The configuration and command-line options the caller resolves before a
//! transfer. These are bare data: file loading and parsing live with the
//! caller, which hands the values in.

use vstd::prelude::*;
use crate::range::BidirectionalRange;

verus! {

/// The whole configuration file.
#[derive(Debug, PartialEq)]
pub struct Config {
    pub general: ConfigGeneral,
    pub safety: ConfigSafety,
    pub defaults: ConfigDefaults,
    pub gist: ConfigGist,
    pub pastebin: ConfigPastebin,
    pub hastebin: ConfigHastebin,
    pub bitbucket: ConfigBitbucket,
}

#[derive(Debug, PartialEq)]
pub struct ConfigGeneral {
    pub file_size_limit: Option<String>,
}

#[derive(Debug, PartialEq)]
pub struct ConfigSafety {
    pub disallowed_file_patterns: Option<Vec<String>>,
    pub disallowed_file_types: Option<Vec<String>>,
    pub cancel_on_unsupported: Option<bool>,
    pub warn_on_unsupported: Option<bool>,
}

#[derive(Debug, PartialEq)]
pub struct ConfigDefaults {
    pub private: Option<bool>,
    pub authed: Option<bool>,
    pub bin: Option<String>,
    pub copy: Option<bool>,
}

#[derive(Debug, PartialEq)]
pub struct ConfigGist {
    pub username: Option<String>,
    pub access_token: Option<String>,
}

#[derive(Debug, PartialEq)]
pub struct ConfigPastebin {
    pub api_key: Option<String>,
}

#[derive(Debug, PartialEq)]
pub struct ConfigHastebin {
    pub server: Option<String>,
}

#[derive(Debug, PartialEq)]
pub struct ConfigBitbucket {
    pub username: Option<String>,
    pub app_password: Option<String>,
}

impl Default for ConfigGeneral {
    fn default() -> (r: Self)
        ensures
            r.file_size_limit is None,
    {
        ConfigGeneral { file_size_limit: None }
    }
}

impl Default for ConfigSafety {
    fn default() -> (r: Self)
        ensures
            r.disallowed_file_patterns is None,
            r.disallowed_file_types is None,
            r.cancel_on_unsupported is None,
            r.warn_on_unsupported is None,
    {
        ConfigSafety {
            disallowed_file_patterns: None,
            disallowed_file_types: None,
            cancel_on_unsupported: None,
            warn_on_unsupported: None,
        }
    }
}

impl Default for ConfigDefaults {
    fn default() -> (r: Self)
        ensures
            r.private is None,
            r.authed is None,
            r.bin is None,
            r.copy is None,
    {
        ConfigDefaults { private: None, authed: None, bin: None, copy: None }
    }
}

impl Default for ConfigGist {
    fn default() -> (r: Self)
        ensures
            r.username is None,
            r.access_token is None,
    {
        ConfigGist { username: None, access_token: None }
    }
}

impl Default for ConfigPastebin {
    fn default() -> (r: Self)
        ensures
            r.api_key is None,
    {
        ConfigPastebin { api_key: None }
    }
}

impl Default for ConfigHastebin {
    fn default() -> (r: Self)
        ensures
            r.server is None,
    {
        ConfigHastebin { server: None }
    }
}

impl Default for ConfigBitbucket {
    fn default() -> (r: Self)
        ensures
            r.username is None,
            r.app_password is None,
    {
        ConfigBitbucket { username: None, app_password: None }
    }
}

impl Default for Config {
    fn default() -> (r: Self)
        ensures
            r.general.file_size_limit is None,
            r.defaults.bin is None,
    {
        Config {
            general: ConfigGeneral::default(),
            safety: ConfigSafety::default(),
            defaults: ConfigDefaults::default(),
            gist: ConfigGist::default(),
            pastebin: ConfigPastebin::default(),
            hastebin: ConfigHastebin::default(),
            bitbucket: ConfigBitbucket::default(),
        }
    }
}

/// The options resolved from the command line.
#[derive(Debug, PartialEq)]
pub struct CommandLineOptions {
    pub authed: Option<bool>,
    pub private: Option<bool>,
    pub file_name: Option<String>,
    pub json: Option<bool>,
    pub url_output: Option<UrlOutputMode>,
    pub force: Option<bool>,
    pub name: Option<String>,
    pub copy: Option<bool>,
    pub list_all: Option<bool>,
    pub range: Option<Vec<BidirectionalRange>>,
}

impl CommandLineOptions {
    /// Whether JSON output was asked for.
    pub fn json(&self) -> (r: bool)
        ensures
            r == (self.json == Some(true)),
    {
        match self.json {
            Some(true) => true,
            _ => false,
        }
    }
}

impl Default for CommandLineOptions {
    fn default() -> (r: Self)
        ensures
            r.authed is None,
            r.private is None,
            r.file_name is None,
            r.json is None,
            r.url_output is None,
            r.force is None,
            r.name is None,
            r.copy is None,
            r.list_all is None,
            r.range is None,
    {
        CommandLineOptions {
            authed: None,
            private: None,
            file_name: None,
            json: None,
            url_output: None,
            force: None,
            name: None,
            copy: None,
            list_all: None,
            range: None,
        }
    }
}

/// Which kind of URL to print for the transferred files.
#[derive(Debug, Clone, Copy, PartialEq, Eq, Structural)]
pub enum UrlOutputMode {
    Html,
    Raw,
}

/// Convenience lookups over a parsed configuration document, implemented by
/// the caller for whatever document type it parses into.
pub trait BetterLookups {
    fn lookup_str<'a>(&'a self, path: &'a str) -> Option<&'a str>;

    fn lookup_str_or<'a>(&'a self, key: &'a str, def: &'a str) -> &'a str;

    fn lookup_bool<'a>(&'a self, path: &'a str) -> Option<bool>;

    fn lookup_bool_or<'a>(&'a self, key: &'a str, def: bool) -> bool;
}

} // verus!
