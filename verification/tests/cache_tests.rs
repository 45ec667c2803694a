use kemote::cache::{fetch_plan, Artifact, FetchPlan, HashMapImageCache, LoadState};
use kemote::errors::{LoadError, NetworkError};

fn artifact(tag: u8) -> Artifact {
    Artifact { width: 2, height: 1, data: vec![tag, tag, tag] }
}

#[test]
fn single_flight_per_key() {
    // Of any number of loads issued before the first resolves, exactly one
    // is told to fetch; the rest attach to the same in-flight work.
    let mut cache = HashMapImageCache::new();
    assert!(matches!(cache.load(7), LoadState::MustFetch));
    assert!(matches!(cache.load(7), LoadState::Pending));
    assert!(matches!(cache.load(7), LoadState::Pending));
    assert!(matches!(cache.load(7), LoadState::Pending));
}

#[test]
fn all_callers_observe_the_same_outcome() {
    let mut cache = HashMapImageCache::new();
    assert!(matches!(cache.load(7), LoadState::MustFetch));
    assert!(cache.complete(7, Ok(artifact(9))));
    for _ in 0..3 {
        match cache.load(7) {
            LoadState::Ready(Ok(a)) => {
                assert_eq!(a.width, 2);
                assert_eq!(a.height, 1);
                assert_eq!(a.data, vec![9, 9, 9]);
            }
            _ => panic!("every later load must see the one outcome"),
        }
    }
}

#[test]
fn completion_notifies_exactly_once() {
    let mut cache = HashMapImageCache::new();
    assert!(matches!(cache.load(3), LoadState::MustFetch));
    assert!(cache.complete(3, Ok(artifact(1))));
    // A late completion, whatever it carries, changes nothing and stays silent.
    assert!(!cache.complete(3, Ok(artifact(2))));
    assert!(!cache.complete(3, Err(LoadError::Decode)));
    match cache.load(3) {
        LoadState::Ready(Ok(a)) => assert_eq!(a.data, vec![1, 1, 1]),
        _ => panic!("the first outcome must stand"),
    }
}

#[test]
fn completion_for_unknown_key_is_ignored() {
    let mut cache = HashMapImageCache::new();
    assert!(!cache.complete(42, Ok(artifact(5))));
    assert!(matches!(cache.load(42), LoadState::MustFetch));
}

#[test]
fn failures_are_terminal_for_their_key() {
    let mut cache = HashMapImageCache::new();
    assert!(matches!(cache.load(11), LoadState::MustFetch));
    assert!(cache.complete(11, Err(LoadError::Network(NetworkError::Timeout))));
    match cache.load(11) {
        LoadState::Ready(Err(LoadError::Network(NetworkError::Timeout))) => {}
        _ => panic!("a failed load is stored and never retried"),
    }
    match cache.load(11) {
        LoadState::Ready(Err(_)) => {}
        _ => panic!("still terminal on the next frame"),
    }
}

#[test]
fn distinct_keys_are_independent() {
    let mut cache = HashMapImageCache::new();
    assert!(matches!(cache.load(1), LoadState::MustFetch));
    assert!(matches!(cache.load(2), LoadState::MustFetch));
    assert!(cache.complete(2, Err(LoadError::Io)));
    assert!(matches!(cache.load(1), LoadState::Pending));
    assert!(matches!(cache.load(2), LoadState::Ready(Err(LoadError::Io))));
}

#[test]
fn disk_first_fetch_plan() {
    // A blob already on disk is decoded from disk; the network path is only
    // for a missing blob.
    assert_eq!(fetch_plan(true), FetchPlan::DecodeFromDisk);
    assert_eq!(fetch_plan(false), FetchPlan::DownloadAndPersist);
}

#[test]
fn disk_first_across_cache_instances() {
    // First run: the blob is not on disk, so the one demanded fetch
    // downloads and persists it before decoding.
    let mut first = HashMapImageCache::new();
    assert!(matches!(first.load(5), LoadState::MustFetch));
    assert_eq!(fetch_plan(false), FetchPlan::DownloadAndPersist);
    assert!(first.complete(5, Ok(artifact(1))));

    // A fresh instance starts with empty memory, so it demands the fetch
    // again — but with the blob now on disk, the plan never touches the
    // network.
    let mut fresh = HashMapImageCache::new();
    assert!(matches!(fresh.load(5), LoadState::MustFetch));
    assert_eq!(fetch_plan(true), FetchPlan::DecodeFromDisk);
}

#[test]
fn artifact_clone_is_deep_and_equal() {
    let a = artifact(7);
    let b = a.clone();
    assert_eq!(b.width, a.width);
    assert_eq!(b.height, a.height);
    assert_eq!(b.data, a.data);
}
