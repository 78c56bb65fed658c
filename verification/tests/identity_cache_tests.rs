use identity_sync::errors::DiscoveryError;
use identity_sync::identity::{sort_identities, Identity};
use identity_sync::identity_cache::{IdentityCache, ListDecision};

fn ident(id: &str, ts: Option<u64>) -> Identity {
    Identity {
        id: id.to_string(),
        label: None,
        last_seen: ts,
        source: "local".to_string(),
    }
}

#[test]
fn empty_cache_populates_and_returns_most_recent_first() {
    let mut cache = IdentityCache::new();
    match cache.list_decision() {
        ListDecision::MustEnumerate => {}
        ListDecision::Cached(_) => panic!("a fresh cache must ask for enumeration"),
    }
    let raw = vec![ident("A", Some(100)), ident("B", Some(200))];
    let listed = cache.finish_enumeration(Ok(raw)).unwrap();
    assert_eq!(listed.len(), 2);
    assert_eq!(listed[0].id, "B");
    assert_eq!(listed[1].id, "A");
}

#[test]
fn populated_cache_never_reenumerates_and_all_readers_agree() {
    let mut cache = IdentityCache::new();
    let mut enumerations = 0;
    let first = match cache.list_decision() {
        ListDecision::Cached(v) => v,
        ListDecision::MustEnumerate => {
            enumerations += 1;
            cache
                .finish_enumeration(Ok(vec![ident("A", Some(100)), ident("B", Some(200))]))
                .unwrap()
        }
    };
    let second = match cache.list_decision() {
        ListDecision::Cached(v) => v,
        ListDecision::MustEnumerate => {
            enumerations += 1;
            cache.finish_enumeration(Ok(vec![])).unwrap()
        }
    };
    assert_eq!(enumerations, 1);
    assert_eq!(first, second);
}

#[test]
fn enumeration_failure_is_not_memoized() {
    let mut cache = IdentityCache::new();
    let err = DiscoveryError {
        message: "registry hive unavailable".to_string(),
    };
    let r = cache.finish_enumeration(Err(err));
    assert_eq!(
        r.unwrap_err().message,
        "registry hive unavailable".to_string()
    );
    match cache.list_decision() {
        ListDecision::MustEnumerate => {}
        ListDecision::Cached(_) => panic!("a failed enumeration must leave the cache empty"),
    }
}

#[test]
fn sort_is_descending_and_stable_on_ties() {
    let a = ident("A", Some(50));
    let b = ident("B", Some(200));
    let c = ident("C", Some(50));
    let d = ident("D", None);
    let sorted = sort_identities(&vec![a, b, c, d]);
    let ids: Vec<&str> = sorted.iter().map(|x| x.id.as_str()).collect();
    assert_eq!(ids, vec!["B", "A", "C", "D"]);
}

#[test]
fn missing_timestamps_sort_last_and_keep_their_order() {
    let sorted = sort_identities(&vec![
        ident("X", None),
        ident("Y", Some(1)),
        ident("Z", None),
    ]);
    let ids: Vec<&str> = sorted.iter().map(|x| x.id.as_str()).collect();
    assert_eq!(ids, vec!["Y", "X", "Z"]);
}
