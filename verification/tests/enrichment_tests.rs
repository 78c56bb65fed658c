use identity_sync::enrichment::{EnrichedProfile, FetchDecision, ProfileEnrichmentCache};
use identity_sync::errors::EnrichmentError;

fn profile(id: &str, name: &str) -> EnrichedProfile {
    EnrichedProfile {
        id: id.to_string(),
        display_name: Some(name.to_string()),
        avatar_url: None,
        status: None,
    }
}

/// Runs one `fetch` as a caller would: the locked lookup, then, only on a
/// miss, the provider call and the locked insert. Returns the profile and
/// whether the provider was called.
fn fetch_with<F: FnMut() -> Result<EnrichedProfile, EnrichmentError>>(
    cache: &mut ProfileEnrichmentCache,
    key: &str,
    provider: &mut F,
) -> (Result<EnrichedProfile, EnrichmentError>, bool) {
    let key = key.to_string();
    match cache.lookup(&key) {
        FetchDecision::Hit(p) => (Ok(p), false),
        FetchDecision::Miss => (cache.finish_fetch(key, provider()), true),
    }
}

#[test]
fn second_fetch_is_a_hit_with_the_first_profile() {
    let mut cache = ProfileEnrichmentCache::new();
    let key = "76561198000000001";
    let mut remote_calls = 0;

    let mut first_provider = || {
        remote_calls += 1;
        Ok(profile(key, "x"))
    };
    let (r1, called1) = fetch_with(&mut cache, key, &mut first_provider);
    assert!(called1);
    assert_eq!(r1.unwrap().display_name, Some("x".to_string()));
    assert_eq!(remote_calls, 1);

    let mut second_provider = || {
        remote_calls += 1;
        Ok(profile(key, "y"))
    };
    let (r2, called2) = fetch_with(&mut cache, key, &mut second_provider);
    assert!(!called2);
    assert_eq!(r2.unwrap().display_name, Some("x".to_string()));
    assert_eq!(remote_calls, 1);
}

#[test]
fn fetch_failure_is_never_cached() {
    let mut cache = ProfileEnrichmentCache::new();
    let key = "7".to_string();
    let r = cache.finish_fetch(
        key.clone(),
        Err(EnrichmentError {
            message: "provider offline".to_string(),
        }),
    );
    assert_eq!(r.unwrap_err().message, "provider offline".to_string());
    match cache.lookup(&key) {
        FetchDecision::Miss => {}
        FetchDecision::Hit(_) => panic!("a failed fetch must not populate the cache"),
    }
}

#[test]
fn racing_inserts_resolve_last_write_wins() {
    let mut cache = ProfileEnrichmentCache::new();
    let key = "k".to_string();
    cache
        .finish_fetch(key.clone(), Ok(profile("k", "first")))
        .unwrap();
    cache
        .finish_fetch(key.clone(), Ok(profile("k", "second")))
        .unwrap();
    match cache.lookup(&key) {
        FetchDecision::Hit(p) => assert_eq!(p.display_name, Some("second".to_string())),
        FetchDecision::Miss => panic!("the key was stored"),
    }
}

#[test]
fn distinct_keys_do_not_shadow_each_other() {
    let mut cache = ProfileEnrichmentCache::new();
    cache
        .finish_fetch("a".to_string(), Ok(profile("a", "anna")))
        .unwrap();
    cache
        .finish_fetch("b".to_string(), Ok(profile("b", "bob")))
        .unwrap();
    match cache.lookup(&"a".to_string()) {
        FetchDecision::Hit(p) => assert_eq!(p.display_name, Some("anna".to_string())),
        FetchDecision::Miss => panic!("key a was stored"),
    }
    match cache.lookup(&"b".to_string()) {
        FetchDecision::Hit(p) => assert_eq!(p.display_name, Some("bob".to_string())),
        FetchDecision::Miss => panic!("key b was stored"),
    }
}
