//! Export declarations: which store key feeds which environment variable.

use vstd::prelude::*;
use crate::text::{split_first, split_once_char};

verus! {

/// One requested export: the environment variable `env`, read from the
/// store key `param`, or from the key `env` itself when `param` is absent.
#[derive(Debug)]
pub struct Export {
    pub env: String,
    pub param: Option<String>,
}

/// Why an export flag could not be read.
#[derive(Clone, Copy, Debug, PartialEq, Eq)]
pub enum ExportError {
    /// The environment variable name would be empty.
    EmptyName,
}

/// The value of an [`Export`] over character sequences.
pub struct ExportModel {
    pub env: Seq<char>,
    pub param: Option<Seq<char>>,
}

impl View for Export {
    type V = ExportModel;

    open spec fn view(&self) -> ExportModel {
        ExportModel {
            env: self.env@,
            param: match self.param {
                Some(p) => Some(p@),
                None => None,
            },
        }
    }
}

impl ExportModel {
    /// The store key that is read.
    pub open spec fn store_key(self) -> Seq<char> {
        match self.param {
            Some(p) => p,
            None => self.env,
        }
    }
}

/// Checks that the export names a variable. An empty store key is kept:
/// it is a key that the store does not return.
pub open spec fn validated(m: ExportModel) -> Result<ExportModel, ExportError> {
    if m.env.len() == 0 {
        Err(ExportError::EmptyName)
    } else {
        Ok(m)
    }
}

/// `ENV[=PARAM]`: the variable, then optionally the key it is read from.
pub open spec fn parse_export(s: Seq<char>) -> Result<ExportModel, ExportError> {
    match split_first(s, '=') {
        Some((env, param)) => validated(ExportModel { env, param: Some(param) }),
        None => validated(ExportModel { env: s, param: None }),
    }
}

/// `NAME[:ENV]`: the key, then optionally the variable it is exported as.
pub open spec fn parse_param(s: Seq<char>) -> Result<ExportModel, ExportError> {
    match split_first(s, ':') {
        Some((name, env)) => validated(ExportModel { env, param: Some(name) }),
        None => validated(ExportModel { env: s, param: None }),
    }
}

/// The result of a parse, seen through the view of [`Export`].
pub open spec fn parsed_as(r: Result<Export, ExportError>, m: Result<ExportModel, ExportError>) -> bool {
    match (r, m) {
        (Ok(e), Ok(v)) => e@ == v,
        (Err(a), Err(b)) => a == b,
        _ => false,
    }
}

fn checked(env: String, param: Option<String>) -> (r: Result<Export, ExportError>)
    ensures
        parsed_as(r, validated((Export { env, param })@)),
{
    let e = Export { env, param };
    if e.env.unicode_len() == 0 {
        Err(ExportError::EmptyName)
    } else {
        Ok(e)
    }
}

impl Export {
    /// Reads an `ENV[=PARAM]` flag value.
    pub fn from_str(s: &str) -> (r: Result<Export, ExportError>)
        ensures
            parsed_as(r, parse_export(s@)),
    {
        match split_once_char(s, '=') {
            Some((env, param)) => checked(env, Some(param)),
            None => checked(s.to_owned(), None),
        }
    }

    /// Reads a `NAME[:ENV]` flag value.
    pub fn from_param_str(s: &str) -> (r: Result<Export, ExportError>)
        ensures
            parsed_as(r, parse_param(s@)),
    {
        match split_once_char(s, ':') {
            Some((name, env)) => checked(env, Some(name)),
            None => checked(s.to_owned(), None),
        }
    }

    /// The store key this export reads.
    pub fn store_key(&self) -> (r: String)
        ensures
            r@ == self@.store_key(),
    {
        match &self.param {
            Some(p) => p.clone(),
            None => self.env.clone(),
        }
    }
}

} // verus!
