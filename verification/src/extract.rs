//! The import names of a sample: the sample is parsed by `goblin`; which
//! samples are taken and what is done with their names is decided here.

use vstd::prelude::*;
use crate::cache::Cache;
use crate::error::result_view;
use crate::matcher::{match_imports, matches_of};

verus! {

/// `goblin::error::Error`, carried through and never looked into.
#[verifier::external_type_specification]
#[verifier::external_body]
pub struct ExObjectError(goblin::error::Error);

/// What `goblin` makes of the bytes of a sample: nothing where it reports an
/// error; else the names of the imports where it finds a portable
/// executable, in the order of its import list, and nothing where it finds
/// an object of another kind.
pub uninterp spec fn parsed_imports(sample: Seq<u8>) -> Option<Option<Seq<Seq<char>>>>;

/// Calls `goblin::Object::parse` and, of a portable executable, copies the
/// name of each entry of `imports`. Trusted: the result is what
/// [`parsed_imports`] names.
#[verifier::external_body]
pub(crate) fn parse_imports(sample: &[u8]) -> (parsed: Result<Option<Vec<String>>, goblin::error::Error>)
    ensures
        match parsed {
            Ok(names) => parsed_imports(sample@) == Some(names.deep_view()),
            Err(_) => parsed_imports(sample@) is None,
        },
{
    match goblin::Object::parse(sample)? {
        goblin::Object::PE(pe) => Ok(
            Some(pe.imports.iter().map(|import| import.name.to_string()).collect()),
        ),
        _ => Ok(None),
    }
}

/// Why a sample gives no import names.
#[derive(Clone, Copy, Debug, PartialEq, Eq, Structural)]
pub enum ExtractError {
    /// The sample could not be parsed.
    Unparsable,
    /// The sample is no portable executable.
    UnsupportedFormat,
}

impl DeepView for ExtractError {
    type V = ExtractError;

    open spec fn deep_view(&self) -> ExtractError {
        *self
    }
}

/// The import names of a sample, or why there are none.
pub open spec fn imports_of(sample: Seq<u8>) -> Result<Seq<Seq<char>>, ExtractError> {
    match parsed_imports(sample) {
        Some(Some(names)) => Ok(names),
        Some(None) => Err(ExtractError::UnsupportedFormat),
        None => Err(ExtractError::Unparsable),
    }
}

/// For each category of `store`, the import names of the sample that it
/// knows; or why the sample gives no import names.
pub open spec fn scanned(sample: Seq<u8>, store: crate::cache::CacheView) -> Result<
    Seq<Seq<Seq<char>>>,
    ExtractError,
> {
    match imports_of(sample) {
        Ok(names) => Ok(matches_of(names.to_set(), store)),
        Err(error) => Err(error),
    }
}

impl ExtractError {
    /// The failure in words.
    pub fn message(&self) -> (text: String)
        ensures
            text@ == (match self {
                ExtractError::Unparsable => "could not parse sample"@,
                ExtractError::UnsupportedFormat => "invalid file type, only PE files are supported"@,
            }),
    {
        match self {
            ExtractError::Unparsable => String::from_str("could not parse sample"),
            ExtractError::UnsupportedFormat => String::from_str(
                "invalid file type, only PE files are supported",
            ),
        }
    }
}

/// Takes the import names out of the bytes of a sample.
pub fn extract_imports(sample: &[u8]) -> (names: Result<Vec<String>, ExtractError>)
    ensures
        result_view(names) == imports_of(sample@),
{
    match parse_imports(sample) {
        Ok(Some(names)) => Ok(names),
        Ok(None) => Err(ExtractError::UnsupportedFormat),
        Err(_) => Err(ExtractError::Unparsable),
    }
}

/// Matches the imports of a sample against every category of `store`.
pub fn scan(sample: &[u8], store: &Cache) -> (found: Result<Vec<Vec<String>>, ExtractError>)
    ensures
        result_view(found) == scanned(sample@, store@),
{
    match extract_imports(sample) {
        Ok(names) => Ok(match_imports(&names, store)),
        Err(error) => Err(error),
    }
}

} // verus!
