use identity_sync::fingerprint::{derive_fingerprint, generate};

#[test]
fn derivation_matches_the_salted_digest() {
    let derived = derive_fingerprint("abc");
    let expected = format!("{:x}", md5::compute("identity-sync.v1:abc".as_bytes()));
    assert_eq!(derived, expected);
    assert_eq!(derived.len(), 32);
}

#[test]
fn derivation_is_deterministic_in_the_attributes() {
    let a = derive_fingerprint("cpu-vendor|8");
    let b = derive_fingerprint("cpu-vendor|8");
    assert_eq!(a, b);
}

#[test]
fn different_attributes_give_different_fingerprints() {
    let a = derive_fingerprint("cpu-vendor|8");
    let b = derive_fingerprint("cpu-vendor|16");
    assert_ne!(a, b);
}

#[test]
fn generation_is_idempotent_on_one_machine() {
    let first = generate();
    let second = generate();
    match (first, second) {
        (Ok(a), Ok(b)) => {
            assert_eq!(a, b);
            assert_eq!(a.len(), 32);
        }
        (Err(a), Err(b)) => assert_eq!(a.message, b.message),
        _ => panic!("two runs on unchanged hardware must agree"),
    }
}
