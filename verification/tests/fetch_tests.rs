use osuvs_engine::artifact::{
    artifact_valid, ArtifactCache, FetchError, FetchState, FetchStep,
};
use osuvs_engine::backoff::ExponentialBackoff;
use osuvs_engine::directory::HandleDirectory;
use osuvs_engine::presence::PresenceRegistry;

#[test]
fn backoff_default_delay_sequence() {
    let mut backoff = ExponentialBackoff::new(2).factor(500).max_delay(10_000);
    let mut delays = Vec::new();
    for _ in 0..10 {
        delays.push(backoff.next_delay());
    }
    assert_eq!(
        delays,
        vec![1000, 2000, 4000, 8000, 10000, 10000, 10000, 10000, 10000, 10000]
    );
}

#[test]
fn backoff_without_cap_keeps_growing() {
    let mut backoff = ExponentialBackoff::new(3).factor(10);
    assert_eq!(backoff.next_delay(), 30);
    assert_eq!(backoff.next_delay(), 90);
    assert_eq!(backoff.next_delay(), 270);
}

#[test]
fn artifact_validation_rules() {
    assert!(artifact_valid(&b"osu file format v14".to_vec()));
    assert!(!artifact_valid(&b"<html><body>error</body></html>".to_vec()));
    assert!(!artifact_valid(&b"x".to_vec()));
    assert!(!artifact_valid(&Vec::new()));
    assert!(artifact_valid(&b"<htm?>".to_vec()));
}

#[test]
fn fetch_succeeds_on_valid_payload() {
    let mut fetch = FetchState::with_defaults(42);
    let step = fetch.on_response(Some(&b"osu file format v14\n".to_vec()));
    assert_eq!(step, FetchStep::Success);
}

#[test]
fn fetch_retries_with_backoff_then_gives_up() {
    let mut fetch = FetchState::with_defaults(42);
    let bad = b"<html>placeholder page</html>".to_vec();
    let expected = [1000, 2000, 4000, 8000, 10000, 10000, 10000, 10000, 10000, 10000];
    for delay in expected {
        match fetch.on_response(Some(&bad)) {
            FetchStep::Retry { delay_ms } => assert_eq!(delay_ms, delay),
            other => panic!("expected a retry, got {:?}", other),
        }
    }
    let step = fetch.on_response(Some(&bad));
    assert_eq!(step, FetchStep::GiveUp(FetchError::RetryLimit(42)));
}

#[test]
fn fetch_treats_transport_failure_as_invalid() {
    let mut fetch = FetchState::with_defaults(7);
    match fetch.on_response(None) {
        FetchStep::Retry { delay_ms } => assert_eq!(delay_ms, 1000),
        other => panic!("expected a retry, got {:?}", other),
    }
    let step = fetch.on_response(Some(&b"osu file format v14\n".to_vec()));
    assert_eq!(step, FetchStep::Success);
}

#[test]
fn cache_hit_needs_no_fetch() {
    let mut cache = ArtifactCache::new();
    assert!(cache.needs_fetch(42));
    let bytes = b"osu file format v14\ncontent".to_vec();
    cache.insert(42, bytes.clone());

    // The second lookup for the same map returns the stored artifact and
    // asks for no request at all.
    assert!(!cache.needs_fetch(42));
    assert_eq!(cache.get(42), Some(&bytes));
    assert!(cache.needs_fetch(43));
    assert_eq!(cache.get(43), None);
}

#[test]
fn cache_entries_are_write_once() {
    let mut cache = ArtifactCache::new();
    let first = b"osu file format v14\nfirst".to_vec();
    cache.insert(42, first.clone());
    cache.insert(42, b"other content entirely".to_vec());
    assert_eq!(cache.get(42), Some(&first));
}

#[test]
fn presence_registry_tracks_online_set() {
    let mut reg = PresenceRegistry::new();
    assert!(!reg.is_online(1));
    reg.mark_online(1);
    reg.mark_online(2);
    reg.mark_online(1);
    assert!(reg.is_online(1));
    assert!(reg.is_online(2));
    let snapshot = reg.snapshot_online();
    assert_eq!(snapshot, vec![1, 2]);

    reg.mark_offline(1);
    assert!(!reg.is_online(1));
    assert!(reg.is_online(2));
    reg.mark_offline(99);
    assert_eq!(reg.snapshot_online(), vec![2]);
}

#[test]
fn handle_directory_remembers_resolutions() {
    let mut dir = HandleDirectory::new();
    assert_eq!(dir.lookup(&String::from("peppy")), None);
    dir.record(String::from("peppy"), 2);
    dir.record(String::from("joshi"), 873961);
    assert_eq!(dir.lookup(&String::from("peppy")), Some(2));
    assert_eq!(dir.lookup(&String::from("joshi")), Some(873961));

    // A handle keeps its first resolution.
    dir.record(String::from("peppy"), 999);
    assert_eq!(dir.lookup(&String::from("peppy")), Some(2));
    assert_eq!(dir.entries.len(), 2);
}
