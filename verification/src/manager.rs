//! The cache manager: whether the persisted store is loaded or the store is
//! rebuilt, and what is done with the file meanwhile.
//!
//! The manager touches no file and makes no request. [`begin`] and [`step`]
//! say what is to be done next; the caller does it and reports how it went.

use vstd::prelude::*;
use crate::cache::{decoded, encoded, storable, well_formed, Cache, CacheView};
use crate::error::{result_view, CacheError, CacheErrorView};

verus! {

/// Whether a valid persisted store is at hand.
#[derive(Clone, Copy, Debug, PartialEq, Eq, Structural)]
pub enum CacheState {
    /// No persisted store, or a refresh was asked for.
    Cold,
    /// A persisted store is present and no refresh was asked for.
    Warm,
}

/// The state a load starts in: warm where a cache directory is known, the
/// file exists in it and no refresh is asked for.
pub open spec fn initial_state_of(cache_directory: bool, file_exists: bool, refresh: bool) -> CacheState {
    if cache_directory && file_exists && !refresh {
        CacheState::Warm
    } else {
        CacheState::Cold
    }
}

/// Where a load stands.
pub enum LoadState {
    /// The persisted file is being read.
    Reading,
    /// The stale file is being removed.
    Removing,
    /// The store is being rebuilt; `persist` tells whether it is to be
    /// written afterwards.
    Rebuilding { persist: bool },
    /// The rebuilt store is being written.
    Persisting(Cache),
    /// The load is over.
    Ended,
}

/// What a [`LoadState`] stands for in contracts.
pub enum LoadStateView {
    Reading,
    Removing,
    Rebuilding { persist: bool },
    Persisting(CacheView),
    Ended,
}

impl View for LoadState {
    type V = LoadStateView;

    open spec fn view(&self) -> LoadStateView {
        match self {
            LoadState::Reading => LoadStateView::Reading,
            LoadState::Removing => LoadStateView::Removing,
            LoadState::Rebuilding { persist } => LoadStateView::Rebuilding { persist: *persist },
            LoadState::Persisting(store) => LoadStateView::Persisting(store@),
            LoadState::Ended => LoadStateView::Ended,
        }
    }
}

/// What the caller reports.
pub enum LoadEvent {
    /// The bytes of the persisted file, or nothing where it could not be read.
    Read(Option<Vec<u8>>),
    /// Whether the stale file is gone.
    Removed(bool),
    /// How the synchronization ended.
    Synchronized(Result<Cache, CacheError>),
    /// Whether the file was written.
    Persisted(bool),
}

/// What a [`LoadEvent`] stands for in contracts.
pub enum LoadEventView {
    Read(Option<Seq<u8>>),
    Removed(bool),
    Synchronized(Result<CacheView, CacheErrorView>),
    Persisted(bool),
}

impl View for LoadEvent {
    type V = LoadEventView;

    open spec fn view(&self) -> LoadEventView {
        match self {
            LoadEvent::Read(bytes) => LoadEventView::Read(
                match bytes {
                    Some(bytes) => Some(bytes@),
                    None => None,
                },
            ),
            LoadEvent::Removed(gone) => LoadEventView::Removed(*gone),
            LoadEvent::Synchronized(ended) => LoadEventView::Synchronized(result_view(*ended)),
            LoadEvent::Persisted(written) => LoadEventView::Persisted(*written),
        }
    }
}

/// What the caller is to do next.
pub enum LoadAction {
    /// Read the persisted file and report its bytes.
    ReadFile,
    /// Remove the stale file and report whether it is gone.
    RemoveStale,
    /// Rebuild the store from the remote source and report how it ended.
    Synchronize,
    /// Create the cache directory and, in it, a new file with these bytes,
    /// and report whether that was done.
    Persist(Vec<u8>),
    /// The load succeeded with this store; the failure, if there is one, is
    /// to be reported and does not undo the success.
    Return(Cache, Option<CacheError>),
    /// The load failed.
    Fail(CacheError),
    /// The event does not belong to the state; nothing has changed.
    Ignore,
}

/// What a [`LoadAction`] stands for in contracts.
pub enum LoadActionView {
    ReadFile,
    RemoveStale,
    Synchronize,
    Persist(Seq<u8>),
    Return(CacheView, Option<CacheErrorView>),
    Fail(CacheErrorView),
    Ignore,
}

impl View for LoadAction {
    type V = LoadActionView;

    open spec fn view(&self) -> LoadActionView {
        match self {
            LoadAction::ReadFile => LoadActionView::ReadFile,
            LoadAction::RemoveStale => LoadActionView::RemoveStale,
            LoadAction::Synchronize => LoadActionView::Synchronize,
            LoadAction::Persist(bytes) => LoadActionView::Persist(bytes@),
            LoadAction::Return(store, warning) => LoadActionView::Return(store@, warning.deep_view()),
            LoadAction::Fail(error) => LoadActionView::Fail(error@),
            LoadAction::Ignore => LoadActionView::Ignore,
        }
    }
}

/// How a load starts.
///
/// Warm, the file is read. Cold, the store is rebuilt: after the stale file
/// was removed where a refresh is asked for and the file exists, and without
/// persisting where no cache directory is known.
pub open spec fn begun(cache_directory: bool, file_exists: bool, refresh: bool) -> (
    LoadStateView,
    LoadActionView,
) {
    if initial_state_of(cache_directory, file_exists, refresh) == CacheState::Warm {
        (LoadStateView::Reading, LoadActionView::ReadFile)
    } else if cache_directory && file_exists {
        (LoadStateView::Removing, LoadActionView::RemoveStale)
    } else {
        (LoadStateView::Rebuilding { persist: cache_directory }, LoadActionView::Synchronize)
    }
}

/// How a load goes on from `state` when `event` is reported.
///
/// A file that cannot be read, or whose bytes hold no store, fails the load:
/// it is not rebuilt instead. A stale file that cannot be removed leaves the
/// rebuilt store unpersisted, as a new file could not be created beside it.
/// A failed synchronization fails the load. A store that cannot be written
/// is returned all the same, with the failure as a warning.
pub open spec fn stepped(state: LoadStateView, event: LoadEventView) -> (LoadStateView, LoadActionView) {
    match (state, event) {
        (LoadStateView::Reading, LoadEventView::Read(Some(bytes))) => match decoded(bytes) {
            Some(store) => (LoadStateView::Ended, LoadActionView::Return(store, None)),
            None => (LoadStateView::Ended, LoadActionView::Fail(CacheErrorView::CorruptCache)),
        },
        (LoadStateView::Reading, LoadEventView::Read(None)) => (
            LoadStateView::Ended,
            LoadActionView::Fail(CacheErrorView::CorruptCache),
        ),
        (LoadStateView::Removing, LoadEventView::Removed(gone)) => (
            LoadStateView::Rebuilding { persist: gone },
            LoadActionView::Synchronize,
        ),
        (LoadStateView::Rebuilding { persist }, LoadEventView::Synchronized(Ok(store))) => if persist {
            match encoded(store) {
                Some(bytes) => (LoadStateView::Persisting(store), LoadActionView::Persist(bytes)),
                None => (
                    LoadStateView::Ended,
                    LoadActionView::Return(store, Some(CacheErrorView::CacheWriteFailed)),
                ),
            }
        } else {
            (LoadStateView::Ended, LoadActionView::Return(store, None))
        },
        (LoadStateView::Rebuilding { persist }, LoadEventView::Synchronized(Err(error))) => (
            LoadStateView::Ended,
            LoadActionView::Fail(error),
        ),
        (LoadStateView::Persisting(store), LoadEventView::Persisted(written)) => (
            LoadStateView::Ended,
            LoadActionView::Return(
                store,
                if written {
                    None
                } else {
                    Some(CacheErrorView::CacheWriteFailed)
                },
            ),
        ),
        _ => (state, LoadActionView::Ignore),
    }
}

/// Every store that the state or the event carries is well formed.
pub open spec fn stores_well_formed(state: LoadStateView, event: LoadEventView) -> bool {
    &&& state matches LoadStateView::Persisting(store) ==> well_formed(store)
    &&& event matches LoadEventView::Synchronized(Ok(store)) ==> well_formed(store)
}

/// Tells the state a load starts in.
pub fn initial_state(cache_directory: bool, file_exists: bool, refresh: bool) -> (state: CacheState)
    ensures
        state == initial_state_of(cache_directory, file_exists, refresh),
{
    if cache_directory && file_exists && !refresh {
        CacheState::Warm
    } else {
        CacheState::Cold
    }
}

/// Starts a load: `cache_directory` tells whether a cache directory is
/// known, `file_exists` whether the persisted file is there, `refresh`
/// whether a rebuild is asked for.
pub fn begin(cache_directory: bool, file_exists: bool, refresh: bool) -> (next: (LoadState, LoadAction))
    ensures
        (next.0@, next.1@) == begun(cache_directory, file_exists, refresh),
{
    match initial_state(cache_directory, file_exists, refresh) {
        CacheState::Warm => (LoadState::Reading, LoadAction::ReadFile),
        CacheState::Cold => if cache_directory && file_exists {
            (LoadState::Removing, LoadAction::RemoveStale)
        } else {
            (LoadState::Rebuilding { persist: cache_directory }, LoadAction::Synchronize)
        },
    }
}

/// Goes on with a load: from `state`, on `event`, to the next state and
/// what is to be done in it.
pub fn step(state: LoadState, event: LoadEvent) -> (next: (LoadState, LoadAction))
    requires
        stores_well_formed(state@, event@),
    ensures
        (next.0@, next.1@) == stepped(state@, event@),
        next.0 matches LoadState::Persisting(store) ==> store.wf(),
        next.1 matches LoadAction::Return(store, _) ==> store.wf(),
        next.1 matches LoadAction::Persist(bytes) ==> (next.0 matches LoadState::Persisting(store)
            && (storable(store@) ==> decoded(bytes@) == Some(store@))),
{
    match (state, event) {
        (LoadState::Reading, LoadEvent::Read(Some(bytes))) => match Cache::deserialize(bytes.as_slice()) {
            Ok(store) => (LoadState::Ended, LoadAction::Return(store, None)),
            Err(_) => (LoadState::Ended, LoadAction::Fail(CacheError::CorruptCache)),
        },
        (LoadState::Reading, LoadEvent::Read(None)) => (
            LoadState::Ended,
            LoadAction::Fail(CacheError::CorruptCache),
        ),
        (LoadState::Removing, LoadEvent::Removed(gone)) => (
            LoadState::Rebuilding { persist: gone },
            LoadAction::Synchronize,
        ),
        (LoadState::Rebuilding { persist }, LoadEvent::Synchronized(Ok(store))) => {
            if persist {
                match store.serialize() {
                    Ok(bytes) => (LoadState::Persisting(store), LoadAction::Persist(bytes)),
                    Err(error) => (LoadState::Ended, LoadAction::Return(store, Some(error))),
                }
            } else {
                (LoadState::Ended, LoadAction::Return(store, None))
            }
        },
        (LoadState::Rebuilding { persist }, LoadEvent::Synchronized(Err(error))) => (
            LoadState::Ended,
            LoadAction::Fail(error),
        ),
        (LoadState::Persisting(store), LoadEvent::Persisted(written)) => (
            LoadState::Ended,
            LoadAction::Return(
                store,
                if written {
                    None
                } else {
                    Some(CacheError::CacheWriteFailed)
                },
            ),
        ),
        (state, _) => (state, LoadAction::Ignore),
    }
}

/// A load synchronizes at most once: a step asks for it only on leaving the
/// removal of the stale file, and no step leads back there or to the
/// reading of the file.
pub proof fn lemma_one_synchronization(state: LoadStateView, event: LoadEventView)
    ensures
        stepped(state, event).1 is Synchronize ==> state is Removing,
        stepped(state, event).0 is Removing ==> state is Removing && stepped(state, event).1 is Ignore,
        stepped(state, event).0 is Reading ==> state is Reading && stepped(state, event).1 is Ignore,
{
}

/// A load that starts warm never rebuilds: whatever is reported while the
/// file is read, the load ends or nothing changes, and bytes that hold no
/// store fail it with `CorruptCache`.
pub proof fn lemma_warm_never_rebuilds(file_exists: bool, refresh: bool, event: LoadEventView)
    requires
        initial_state_of(true, file_exists, refresh) == CacheState::Warm,
    ensures
        begun(true, file_exists, refresh) == (LoadStateView::Reading, LoadActionView::ReadFile),
        !(stepped(LoadStateView::Reading, event).1 is Synchronize),
        stepped(LoadStateView::Reading, event).0 is Ended || stepped(LoadStateView::Reading, event).1 is Ignore,
        event matches LoadEventView::Read(Some(bytes)) && decoded(bytes) is None ==> stepped(
            LoadStateView::Reading,
            event,
        ) == (LoadStateView::Ended, LoadActionView::Fail(CacheErrorView::CorruptCache)),
{
}

/// A load that starts cold with a cache directory and no file synchronizes
/// at once, asks for the rebuilt store to be written where it can be
/// encoded, and returns that store once the file is written.
pub proof fn lemma_cold_start(refresh: bool, store: CacheView, bytes: Seq<u8>, written: bool)
    requires
        encoded(store) == Some(bytes),
    ensures
        begun(true, false, refresh) == (
            LoadStateView::Rebuilding { persist: true },
            LoadActionView::Synchronize,
        ),
        stepped(LoadStateView::Rebuilding { persist: true }, LoadEventView::Synchronized(Ok(store))) == (
            LoadStateView::Persisting(store),
            LoadActionView::Persist(bytes),
        ),
        stepped(LoadStateView::Persisting(store), LoadEventView::Persisted(written)).0 is Ended,
        stepped(LoadStateView::Persisting(store), LoadEventView::Persisted(written)).1 matches LoadActionView::Return(
            returned,
            _,
        ) && returned == store,
{
}

} // verus!
