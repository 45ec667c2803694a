//! In-memory image cache with single-flight loads.
//!
//! The cache maps a request key to the state of its load.  The first `load`
//! of a key installs a `Loading` slot and tells its caller — alone — to start
//! the fetch; every concurrent `load` of the same key sees the slot and
//! attaches to the work in progress.  When the work finishes, `complete`
//! replaces the slot with its terminal outcome — a decoded artifact or a
//! typed failure — exactly once; late or repeated completions change nothing.
//! Entries are never evicted: a failure is terminal for its key.
//!
//! The fetch itself is disk-first: a blob already on disk is decoded from
//! disk, and only a missing blob is downloaded (and persisted before it is
//! decoded).  [`fetch_plan`] fixes that decision.

use std::collections::HashMap;

use vstd::prelude::*;

use crate::errors::LoadError;

verus! {

broadcast use vstd::std_specs::hash::group_hash_axioms;

/// Decoded, render-ready image data.
pub struct Artifact {
    /// Width in pixels.
    pub width: u32,
    /// Height in pixels.
    pub height: u32,
    /// Raw decoded pixel data.
    pub data: Vec<u8>,
}

/// Mathematical model of a decoded artifact.
pub ghost struct ArtifactModel {
    pub width: int,
    pub height: int,
    pub data: Seq<u8>,
}

impl View for Artifact {
    type V = ArtifactModel;

    open spec fn view(&self) -> ArtifactModel {
        ArtifactModel { width: self.width as int, height: self.height as int, data: self.data@ }
    }
}

impl Clone for Artifact {
    fn clone(&self) -> (r: Self)
        ensures
            r@ == self@,
    {
        let mut data: Vec<u8> = Vec::new();
        let mut i: usize = 0;
        while i < self.data.len()
            invariant
                i <= self.data@.len(),
                data@ == self.data@.subrange(0, i as int),
            decreases self.data@.len() - i,
        {
            data.push(self.data[i]);
            proof {
                assert(self.data@.subrange(0, i as int) + seq![self.data@[i as int]]
                    =~= self.data@.subrange(0, i as int + 1));
            }
            i = i + 1;
        }
        proof {
            assert(self.data@.subrange(0, self.data@.len() as int) =~= self.data@);
        }
        Artifact { width: self.width, height: self.height, data }
    }
}

/// The model of a finished load's outcome.
pub open spec fn outcome_model(o: Result<Artifact, LoadError>) -> Result<ArtifactModel, LoadError> {
    match o {
        Ok(a) => Ok(a@),
        Err(e) => Err(e),
    }
}

/// One cache slot: work in progress, or its terminal outcome.
pub enum CacheEntry {
    /// A fetch for this key is in flight.
    Loading,
    /// The load finished with this outcome; terminal for the key.
    Ready(Result<Artifact, LoadError>),
}

/// Mathematical model of one cache slot.
pub ghost enum EntryModel {
    Loading,
    Ready(Result<ArtifactModel, LoadError>),
}

impl View for CacheEntry {
    type V = EntryModel;

    open spec fn view(&self) -> EntryModel {
        match self {
            CacheEntry::Loading => EntryModel::Loading,
            CacheEntry::Ready(o) => EntryModel::Ready(outcome_model(*o)),
        }
    }
}

/// What one `load` call reports to its caller.
pub enum LoadState {
    /// No entry existed: the caller — alone — must start the fetch.
    MustFetch,
    /// The fetch is in flight; the caller is attached to it.
    Pending,
    /// The load finished with this outcome.
    Ready(Result<Artifact, LoadError>),
}

/// Mathematical model of a `load` report.
pub ghost enum LoadStateModel {
    MustFetch,
    Pending,
    Ready(Result<ArtifactModel, LoadError>),
}

impl View for LoadState {
    type V = LoadStateModel;

    open spec fn view(&self) -> LoadStateModel {
        match self {
            LoadState::MustFetch => LoadStateModel::MustFetch,
            LoadState::Pending => LoadStateModel::Pending,
            LoadState::Ready(o) => LoadStateModel::Ready(outcome_model(*o)),
        }
    }
}

/// What `load` does: report an existing entry's state without touching it, or
/// install a `Loading` slot and demand the one fetch.
pub open spec fn load_step(m: Map<u64, EntryModel>, key: u64) -> (Map<u64, EntryModel>,
    LoadStateModel) {
    if m.contains_key(key) {
        (
            m,
            match m[key] {
                EntryModel::Loading => LoadStateModel::Pending,
                EntryModel::Ready(o) => LoadStateModel::Ready(o),
            },
        )
    } else {
        (m.insert(key, EntryModel::Loading), LoadStateModel::MustFetch)
    }
}

/// What `complete` does: resolve a key's in-flight slot to its terminal
/// outcome, once; in every other state it is a no-op.  The boolean says
/// whether waiters are to be notified.
pub open spec fn complete_step(
    m: Map<u64, EntryModel>,
    key: u64,
    o: Result<ArtifactModel, LoadError>,
) -> (Map<u64, EntryModel>, bool) {
    if m.contains_key(key) && m[key] is Loading {
        (m.insert(key, EntryModel::Ready(o)), true)
    } else {
        (m, false)
    }
}

fn clone_outcome(o: &Result<Artifact, LoadError>) -> (r: Result<Artifact, LoadError>)
    ensures
        outcome_model(r) == outcome_model(*o),
{
    match o {
        Ok(a) => Ok(a.clone()),
        Err(e) => Err(*e),
    }
}

/// In-memory map from request key to load state, shared by every caller of
/// the same key.
pub struct HashMapImageCache {
    data: HashMap<u64, CacheEntry>,
}

impl View for HashMapImageCache {
    type V = Map<u64, EntryModel>;

    closed spec fn view(&self) -> Map<u64, EntryModel> {
        self.data@.map_values(|e: CacheEntry| e@)
    }
}

impl HashMapImageCache {
    /// Create a new, empty image cache.
    pub fn new() -> (c: Self)
        ensures
            c@ == Map::<u64, EntryModel>::empty(),
    {
        let c = HashMapImageCache { data: HashMap::new() };
        proof {
            assert(c@ =~= Map::<u64, EntryModel>::empty());
        }
        c
    }

    /// Load the resource with the given key.
    ///
    /// An existing entry is reported as it stands and nothing changes, so a
    /// fetch already in flight is never duplicated.  A missing entry is
    /// created `Loading` at once, and only this caller is told to fetch.
    pub fn load(&mut self, key: u64) -> (r: LoadState)
        ensures
            final(self)@ == load_step(old(self)@, key).0,
            r@ == load_step(old(self)@, key).1,
    {
        let existing = match self.data.get(&key) {
            Some(entry) => Some(
                match entry {
                    CacheEntry::Loading => LoadState::Pending,
                    CacheEntry::Ready(o) => LoadState::Ready(clone_outcome(o)),
                },
            ),
            None => None,
        };
        match existing {
            Some(r) => r,
            None => {
                self.data.insert(key, CacheEntry::Loading);
                proof {
                    assert(final(self)@ =~= old(self)@.insert(key, EntryModel::Loading));
                }
                LoadState::MustFetch
            },
        }
    }

    /// Resolve the key's in-flight load to its terminal outcome.
    ///
    /// Returns whether the entry transitioned — true for exactly the first
    /// completion of a key under load, after which waiters are notified once.
    /// A completion for a key that is absent or already resolved is a no-op.
    pub fn complete(&mut self, key: u64, outcome: Result<Artifact, LoadError>) -> (notify: bool)
        ensures
            final(self)@ == complete_step(old(self)@, key, outcome_model(outcome)).0,
            notify == complete_step(old(self)@, key, outcome_model(outcome)).1,
    {
        let is_loading = match self.data.get(&key) {
            Some(CacheEntry::Loading) => true,
            _ => false,
        };
        if is_loading {
            let ghost o = outcome_model(outcome);
            self.data.insert(key, CacheEntry::Ready(outcome));
            proof {
                assert(final(self)@ =~= old(self)@.insert(key, EntryModel::Ready(o)));
            }
            true
        } else {
            false
        }
    }
}

/// How a demanded fetch proceeds, given whether the blob is already on disk.
#[derive(Clone, Copy, Debug, PartialEq, Eq, Structural)]
pub enum FetchPlan {
    /// The blob is on disk: decode it from there; the network is not touched.
    DecodeFromDisk,
    /// No disk copy: download the bytes, persist them, then decode.
    DownloadAndPersist,
}

/// How a demanded fetch proceeds, as a function of whether the blob is on
/// disk.
pub open spec fn fetch_plan_of(blob_on_disk: bool) -> FetchPlan {
    if blob_on_disk {
        FetchPlan::DecodeFromDisk
    } else {
        FetchPlan::DownloadAndPersist
    }
}

/// Decide how a demanded fetch proceeds, given whether the blob is already
/// on disk.
pub fn fetch_plan(blob_on_disk: bool) -> (p: FetchPlan)
    ensures
        p == fetch_plan_of(blob_on_disk),
{
    if blob_on_disk {
        FetchPlan::DecodeFromDisk
    } else {
        FetchPlan::DownloadAndPersist
    }
}

/// Disk-first: a resource whose blob is already on disk is decoded from
/// disk and never re-downloaded; only a missing blob goes to the network,
/// and its bytes are persisted before they are decoded.
pub proof fn lemma_disk_first()
    ensures
        fetch_plan_of(true) == FetchPlan::DecodeFromDisk,
        fetch_plan_of(false) == FetchPlan::DownloadAndPersist,
{
}

/// Single-flight and fan-out, over any interleaving at one key.
///
/// Starting with no entry for `key`: the first `load` — and only it — is told
/// to fetch; any `load` before the resolution attaches to the same in-flight
/// work and changes nothing; the one `complete` notifies; every `load` after
/// it observes that same outcome; and a later `complete` — whatever outcome
/// it carries — neither changes the entry nor notifies again.
pub proof fn lemma_single_flight(
    m: Map<u64, EntryModel>,
    key: u64,
    first: Result<ArtifactModel, LoadError>,
    late: Result<ArtifactModel, LoadError>,
)
    requires
        !m.contains_key(key),
    ensures
        ({
            let (m1, s1) = load_step(m, key);
            let (m2, s2) = load_step(m1, key);
            let (m3, n3) = complete_step(m1, key, first);
            let (m4, s4) = load_step(m3, key);
            let (m5, n5) = complete_step(m3, key, late);
            &&& s1 is MustFetch
            &&& m2 == m1 && s2 is Pending
            &&& n3
            &&& m4 == m3 && s4 == LoadStateModel::Ready(first)
            &&& m5 == m3 && !n5
        }),
{
}

/// A completion is delivered at most once: whatever the starting state at a
/// key, a second `complete` after a first never notifies again.
pub proof fn lemma_notify_at_most_once(
    m: Map<u64, EntryModel>,
    key: u64,
    first: Result<ArtifactModel, LoadError>,
    late: Result<ArtifactModel, LoadError>,
)
    ensures
        !complete_step(complete_step(m, key, first).0, key, late).1,
{
}

} // verus!
