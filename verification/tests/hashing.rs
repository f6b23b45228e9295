use linkauth::hashing::{
    argon2_check_key_against_hash, argon2_hash_key, hashed_key_verifies,
    rehash_preserves_verification, setup_strong_argon2, setup_weak_argon2,
};

#[test]
fn test_hash_key_and_check_key_against_hash() {
    let argon2 = setup_weak_argon2();

    let key = "password123";
    let hash = argon2_hash_key(&argon2, key);

    assert!(argon2_check_key_against_hash(&argon2, key, &hash));
    assert!(!argon2_check_key_against_hash(
        &argon2,
        "not the key oops",
        &hash
    ));
}

#[test]
fn test_check_invalid_key() {
    let argon2 = setup_weak_argon2();

    let key_hash = argon2_hash_key(&argon2, "test");

    assert!(!argon2_check_key_against_hash(&argon2, "balls", &key_hash));
    assert!(!argon2_check_key_against_hash(&argon2, "", &key_hash));
    assert!(!argon2_check_key_against_hash(&argon2, " ", &key_hash));
}

#[test]
fn test_strong_profile_roundtrip() {
    let argon2 = setup_strong_argon2();

    let key = "a long-lived operator password";
    let hash = argon2_hash_key(&argon2, key);

    assert!(argon2_check_key_against_hash(&argon2, key, &hash));
    assert!(!argon2_check_key_against_hash(&argon2, "another secret", &hash));
}

#[test]
fn test_hashed_key_always_verifies() {
    let weak = setup_weak_argon2();
    let strong = setup_strong_argon2();

    assert!(hashed_key_verifies(&weak, "some secret"));
    assert!(hashed_key_verifies(&strong, ""));
}

#[test]
fn test_rehash_differs_but_both_verify() {
    let argon2 = setup_weak_argon2();

    let key = "the very same secret";
    let (first, second) = rehash_preserves_verification(&argon2, key);

    // fresh salt per call: the hash strings differ...
    assert_ne!(first, second);
    // ...yet both verify against the secret
    assert!(argon2_check_key_against_hash(&argon2, key, &first));
    assert!(argon2_check_key_against_hash(&argon2, key, &second));
}

#[test]
fn test_verify_fails_closed_on_malformed_hash() {
    let argon2 = setup_weak_argon2();

    assert!(!argon2_check_key_against_hash(&argon2, "secret", ""));
    assert!(!argon2_check_key_against_hash(
        &argon2,
        "secret",
        "not a phc hash string at all"
    ));
    assert!(!argon2_check_key_against_hash(
        &argon2,
        "secret",
        "$argon2id$v=19$m=13312,t=2,p=1$truncated"
    ));
}

#[test]
fn test_verify_rejects_other_secret() {
    let argon2 = setup_weak_argon2();

    let hash = argon2_hash_key(&argon2, "first secret");
    assert!(!argon2_check_key_against_hash(&argon2, "second secret", &hash));
}
