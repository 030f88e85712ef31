//! What can go wrong while a store is rebuilt, loaded or persisted.

use vstd::prelude::*;

verus! {

/// The part of a detail page that could not be had.
#[derive(Clone, Copy, Debug, PartialEq, Eq, Structural)]
pub enum DetailFault {
    /// The request for the page failed.
    NoPage,
    /// The page holds no summary.
    NoInfo,
    /// The page holds no library.
    NoLibrary,
    /// The page holds no documentation link.
    NoDocumentation,
}

/// What a [`CacheError`] stands for in contracts.
pub enum CacheErrorView {
    SourceUnreachable,
    InvalidSelector,
    MisalignedIndex,
    DetailFetchFailed { name: Seq<char>, fault: DetailFault },
    CorruptCache,
    CacheWriteFailed,
}

/// The failures of the cache and of its synchronization.
#[derive(Debug)]
pub enum CacheError {
    /// The index of the remote source could not be fetched or read.
    SourceUnreachable,
    /// A selector by which a page is searched was not accepted.
    InvalidSelector,
    /// The index lists another number of headers than of categories.
    MisalignedIndex,
    /// The details of the API `name` could not be had.
    DetailFetchFailed { name: String, fault: DetailFault },
    /// The persisted bytes do not hold a store.
    CorruptCache,
    /// The store could not be persisted.
    CacheWriteFailed,
}

impl View for CacheError {
    type V = CacheErrorView;

    open spec fn view(&self) -> CacheErrorView {
        match self {
            CacheError::SourceUnreachable => CacheErrorView::SourceUnreachable,
            CacheError::InvalidSelector => CacheErrorView::InvalidSelector,
            CacheError::MisalignedIndex => CacheErrorView::MisalignedIndex,
            CacheError::DetailFetchFailed { name, fault } => CacheErrorView::DetailFetchFailed {
                name: name@,
                fault: *fault,
            },
            CacheError::CorruptCache => CacheErrorView::CorruptCache,
            CacheError::CacheWriteFailed => CacheErrorView::CacheWriteFailed,
        }
    }
}

impl DeepView for CacheError {
    type V = CacheErrorView;

    open spec fn deep_view(&self) -> CacheErrorView {
        self@
    }
}

impl Clone for CacheError {
    fn clone(&self) -> (copy: CacheError)
        ensures
            copy@ == self@,
    {
        match self {
            CacheError::SourceUnreachable => CacheError::SourceUnreachable,
            CacheError::InvalidSelector => CacheError::InvalidSelector,
            CacheError::MisalignedIndex => CacheError::MisalignedIndex,
            CacheError::DetailFetchFailed { name, fault } => CacheError::DetailFetchFailed {
                name: name.clone(),
                fault: *fault,
            },
            CacheError::CorruptCache => CacheError::CorruptCache,
            CacheError::CacheWriteFailed => CacheError::CacheWriteFailed,
        }
    }
}

impl CacheError {
    /// The failure in words.
    pub fn message(&self) -> (text: String)
        ensures
            text@ == message_of(self@),
    {
        match self {
            CacheError::SourceUnreachable => String::from_str("could not reach the remote index"),
            CacheError::InvalidSelector => String::from_str("failed to parse selector"),
            CacheError::MisalignedIndex => String::from_str(
                "the remote index lists headers and categories in different numbers",
            ),
            CacheError::DetailFetchFailed { name, fault } => {
                let mut text = String::from_str(
                    match fault {
                        DetailFault::NoPage => "could not fetch details of ",
                        DetailFault::NoInfo => "could not find info of ",
                        DetailFault::NoLibrary => "could not find library of ",
                        DetailFault::NoDocumentation => "could not find documentation of ",
                    },
                );
                text.append(name.as_str());
                text
            },
            CacheError::CorruptCache => String::from_str("the cache file is corrupt"),
            CacheError::CacheWriteFailed => String::from_str("could not write the cache file"),
        }
    }
}

/// What a result stands for in contracts: what its value or its error
/// stands for.
pub open spec fn result_view<T: DeepView, E: DeepView>(result: Result<T, E>) -> Result<T::V, E::V> {
    match result {
        Ok(value) => Ok(value.deep_view()),
        Err(error) => Err(error.deep_view()),
    }
}

/// The words for a failure.
pub open spec fn message_of(error: CacheErrorView) -> Seq<char> {
    match error {
        CacheErrorView::SourceUnreachable => "could not reach the remote index"@,
        CacheErrorView::InvalidSelector => "failed to parse selector"@,
        CacheErrorView::MisalignedIndex =>
            "the remote index lists headers and categories in different numbers"@,
        CacheErrorView::DetailFetchFailed { name, fault } => (match fault {
            DetailFault::NoPage => "could not fetch details of "@,
            DetailFault::NoInfo => "could not find info of "@,
            DetailFault::NoLibrary => "could not find library of "@,
            DetailFault::NoDocumentation => "could not find documentation of "@,
        }) + name,
        CacheErrorView::CorruptCache => "the cache file is corrupt"@,
        CacheErrorView::CacheWriteFailed => "could not write the cache file"@,
    }
}

} // verus!
