//! The error taxonomy shared by the engine and the backends. Errors are
//! chainable: an error may wrap another as its cause, and the whole chain can
//! be walked for diagnostics.

use vstd::prelude::*;
use vstd::string::StringExecFns;
use crate::strutil::{spec_dec, usize_to_string};

verus! {

/// Every failure a transfer can raise.
#[derive(Debug, PartialEq)]
pub enum BinsError {
    /// Network or connection failure, with the transport's message.
    Transport(String),
    /// The service responded with a body shape the backend could not read.
    InvalidResponse,
    /// The service responded with a non-success status; carries the status
    /// code and, when one was read, the raw body.
    InvalidStatus(u16, Option<String>),
    /// The service itself reported an application-level error message.
    BinError(String),
    /// A requested 1-based position does not exist among the resolved files.
    RangeOutOfBounds(usize),
    /// The active selection excluded every resolved file.
    FilterTooStrict,
    /// A range component was not a number; carries the offending component.
    BadRangeNumber(String),
    /// A range token had too many dash-separated components.
    BadRange,
    /// A configured file-size limit could not be read.
    InvalidSizeLimit,
    /// The configuration is missing or unusable; carries the reason.
    Config(String),
    /// An internal invariant was violated.
    Other,
    /// An error wrapped with an outer message, keeping its cause.
    Chained(String, Box<BinsError>),
}

pub type Result<T> = core::result::Result<T, BinsError>;

impl BinsError {
    /// The transitive causes of this error, nearest first.
    pub open spec fn spec_parents(self) -> Seq<BinsError>
        decreases self,
    {
        match self {
            BinsError::Chained(_, cause) => seq![*cause] + cause.spec_parents(),
            _ => seq![],
        }
    }

    /// The message a caller prints for this error, without its causes.
    pub fn message(&self) -> (r: String)
        ensures
            match *self {
                BinsError::Transport(m) => r@ == "network error during transfer: "@ + m@,
                BinsError::InvalidResponse => r@
                    == "the bin responded incorrectly (or updated with a breaking change)"@,
                BinsError::InvalidStatus(code, body) => match body {
                    Some(b) => r@ == "the bin responded with an invalid status ("@ + spec_dec(
                        code as nat,
                    ) + ")\nthe bin also included this content with the error:\n\n"@ + b@,
                    None => r@ == "the bin responded with an invalid status ("@ + spec_dec(
                        code as nat,
                    ) + ")"@,
                },
                BinsError::BinError(m) => r@ == m@,
                BinsError::RangeOutOfBounds(i) => r@ == "no file exists at position "@ + spec_dec(
                    i as nat,
                ),
                BinsError::FilterTooStrict => r@ == "the given filter excluded every file"@,
                BinsError::BadRangeNumber(t) => r@ == "bad number in range: "@ + t@,
                BinsError::BadRange => r@ == "range had too many components"@,
                BinsError::InvalidSizeLimit => r@
                    == "invalid file size limit in the configuration"@,
                BinsError::Config(m) => r@ == m@,
                BinsError::Other => r@
                    == "an error occurred. please let us know so we can provide a better error message"@,
                BinsError::Chained(m, _) => r@ == m@,
            },
    {
        match self {
            BinsError::Transport(m) => {
                let mut s = "network error during transfer: ".to_owned();
                s.append(m.as_str());
                s
            },
            BinsError::InvalidResponse => {
                "the bin responded incorrectly (or updated with a breaking change)".to_owned()
            },
            BinsError::InvalidStatus(code, body) => {
                let mut s = "the bin responded with an invalid status (".to_owned();
                let dec = usize_to_string(*code as usize);
                s.append(dec.as_str());
                match body {
                    Some(b) => {
                        s.append(")\nthe bin also included this content with the error:\n\n");
                        s.append(b.as_str());
                        proof {
                            assert(s@ =~= "the bin responded with an invalid status ("@
                                + spec_dec(*code as nat)
                                + ")\nthe bin also included this content with the error:\n\n"@
                                + b@);
                        }
                    },
                    None => {
                        s.append(")");
                        proof {
                            assert(s@ =~= "the bin responded with an invalid status ("@
                                + spec_dec(*code as nat) + ")"@);
                        }
                    },
                }
                s
            },
            BinsError::BinError(m) => m.clone(),
            BinsError::RangeOutOfBounds(i) => {
                let mut s = "no file exists at position ".to_owned();
                let dec = usize_to_string(*i);
                s.append(dec.as_str());
                s
            },
            BinsError::FilterTooStrict => "the given filter excluded every file".to_owned(),
            BinsError::BadRangeNumber(t) => {
                let mut s = "bad number in range: ".to_owned();
                s.append(t.as_str());
                s
            },
            BinsError::BadRange => "range had too many components".to_owned(),
            BinsError::InvalidSizeLimit => {
                "invalid file size limit in the configuration".to_owned()
            },
            BinsError::Config(m) => m.clone(),
            BinsError::Other => {
                "an error occurred. please let us know so we can provide a better error message".to_owned()
            },
            BinsError::Chained(m, _) => m.clone(),
        }
    }

    /// The direct cause, if this error wraps one.
    pub fn cause(&self) -> (r: Option<&BinsError>)
        ensures
            match *self {
                BinsError::Chained(_, cause) => r == Some(&*cause),
                _ => r is None,
            },
    {
        match self {
            BinsError::Chained(_, cause) => Some(&**cause),
            _ => None,
        }
    }
}

impl Clone for BinsError {
    fn clone(&self) -> (r: Self)
        ensures
            r == *self,
        decreases *self,
    {
        match self {
            BinsError::Transport(m) => BinsError::Transport(m.clone()),
            BinsError::InvalidResponse => BinsError::InvalidResponse,
            BinsError::InvalidStatus(code, body) => BinsError::InvalidStatus(
                *code,
                match body {
                    Some(b) => Some(b.clone()),
                    None => None,
                },
            ),
            BinsError::BinError(m) => BinsError::BinError(m.clone()),
            BinsError::RangeOutOfBounds(i) => BinsError::RangeOutOfBounds(*i),
            BinsError::FilterTooStrict => BinsError::FilterTooStrict,
            BinsError::BadRangeNumber(m) => BinsError::BadRangeNumber(m.clone()),
            BinsError::BadRange => BinsError::BadRange,
            BinsError::InvalidSizeLimit => BinsError::InvalidSizeLimit,
            BinsError::Config(m) => BinsError::Config(m.clone()),
            BinsError::Other => BinsError::Other,
            BinsError::Chained(m, cause) => BinsError::Chained(
                m.clone(),
                Box::new((**cause).clone()),
            ),
        }
    }
}

/// Every transitive cause of `error`, nearest first.
pub fn error_parents<'a>(error: &'a BinsError) -> (r: Vec<&'a BinsError>)
    ensures
        r@.map_values(|e: &BinsError| *e) == error.spec_parents(),
    decreases *error,
{
    match error {
        BinsError::Chained(_, cause) => {
            let mut r: Vec<&'a BinsError> = Vec::new();
            r.push(&**cause);
            let rest = error_parents(cause);
            let mut i: usize = 0;
            while i < rest.len()
                invariant
                    i <= rest@.len(),
                    r@.len() == 1 + i,
                    *r@[0] == **cause,
                    forall|k: int| 0 <= k < i ==> *r@[k + 1] == *rest@[k],
                decreases rest@.len() - i,
            {
                r.push(rest[i]);
                i = i + 1;
            }
            proof {
                assert forall|k: int| 0 <= k < rest@.len() implies *rest@[k]
                    == cause.spec_parents()[k] by {
                    assert(*rest@[k] == rest@.map_values(|e: &BinsError| *e)[k]);
                }
                assert(r@.map_values(|e: &BinsError| *e) =~= error.spec_parents());
            }
            r
        },
        _ => {
            let r: Vec<&'a BinsError> = Vec::new();
            proof {
                assert(r@.map_values(|e: &BinsError| *e) =~= error.spec_parents());
            }
            r
        },
    }
}

} // verus!
