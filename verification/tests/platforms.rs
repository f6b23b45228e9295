use linkauth::platforms::{
    check_platform_api_key, CreatePlatformOutcome, PlatformStore, PostCreatePlatformRequest,
    UpdatePlatformData,
};

#[test]
fn test_generate_and_check_api_key() {
    let mut store = PlatformStore::new();
    let (api_key, platform) = store.create_platform("Villager Bot").unwrap();

    assert!(check_platform_api_key(&platform, &api_key));
}

#[test]
fn test_create_and_get_platform() {
    let mut store = PlatformStore::new();
    let (api_key, platform) = store.create_platform("Some Platform").unwrap();

    assert!(api_key.len() == 69);
    assert!(platform.name == "Some Platform");

    let platform = store.get_platform(platform.id).unwrap();
    assert_eq!(platform.name, "Some Platform");
}

#[test]
fn test_get_platform_by_name() {
    let mut store = PlatformStore::new();
    let (_, platform_a) = store.create_platform("Platform A").unwrap();
    store.create_platform("Test B").unwrap();

    let retrieved_platform_a = store.get_platform_by_name("Platform A").unwrap();
    assert_eq!(platform_a.id, retrieved_platform_a.id);

    assert!(store.get_platform_by_name("womp").is_none());
}

#[test]
fn test_get_platform_by_name_is_case_insensitive() {
    let mut store = PlatformStore::new();
    let (_, platform) = store.create_platform("Platform A").unwrap();

    let retrieved = store.get_platform_by_name("pLaTfOrM a").unwrap();
    assert_eq!(platform.id, retrieved.id);
}

#[test]
fn test_get_platforms() {
    let mut store = PlatformStore::new();
    let (_, platform_a) = store.create_platform("Platform A").unwrap();
    let (_, platform_b) = store.create_platform("Platform B").unwrap();

    let platforms = store.get_platforms();

    assert_eq!(platforms.len(), 2);
    assert_eq!(platforms[0].id, platform_a.id);
    assert_eq!(platforms[1].id, platform_b.id);
}

#[test]
fn test_get_platforms_sorted_by_name() {
    let mut store = PlatformStore::new();
    let (_, platform_c) = store.create_platform("carol").unwrap();
    let (_, platform_a) = store.create_platform("alice").unwrap();
    let (_, platform_b) = store.create_platform("bob").unwrap();

    let platforms = store.get_platforms();

    assert_eq!(platforms.len(), 3);
    assert_eq!(platforms[0].id, platform_a.id);
    assert_eq!(platforms[0].name, "alice");
    assert_eq!(platforms[1].id, platform_b.id);
    assert_eq!(platforms[1].name, "bob");
    assert_eq!(platforms[2].id, platform_c.id);
    assert_eq!(platforms[2].name, "carol");
}

#[test]
fn test_update_whole_platform() {
    let mut store = PlatformStore::new();
    let (_, platform) = store.create_platform("Test").unwrap();

    let updated_platform = store
        .update_platform(
            platform.id,
            &UpdatePlatformData {
                name: Some("New Name".to_string()),
                api_key_hash: Some("Not a real hash but new".to_string()),
            },
        )
        .unwrap();

    assert_eq!(platform.id, updated_platform.id);

    assert_eq!(updated_platform.name, "New Name");
    assert_ne!(updated_platform.name, platform.name);

    assert_eq!(updated_platform.api_key_hash, "Not a real hash but new");
    assert_ne!(updated_platform.api_key_hash, platform.api_key_hash);
}

#[test]
fn test_update_nonexistent_platform() {
    let mut store = PlatformStore::new();

    let updated_platform = store.update_platform(
        0x0123_4567_89ab_cdef_0123_4567_89ab_cdef,
        &UpdatePlatformData {
            name: Some("New Name".to_string()),
            api_key_hash: Some("BLAH".to_string()),
        },
    );

    assert!(updated_platform.is_none());
}

#[test]
fn test_update_platform_missing_all_fields() {
    let mut store = PlatformStore::new();
    let (_, platform) = store.create_platform("minecraft.global").unwrap();

    let updated_platform = store
        .update_platform(platform.id, &UpdatePlatformData { name: None, api_key_hash: None })
        .unwrap();

    assert_eq!(updated_platform.id, platform.id);
    assert_eq!(updated_platform.name, platform.name);
    assert_eq!(updated_platform.api_key_hash, platform.api_key_hash);
}

#[test]
fn test_delete_platform() {
    let mut store = PlatformStore::new();
    let (_, platform) = store.create_platform("Villager Bot").unwrap();

    let deleted_platform = store.delete_platform(platform.id).unwrap();

    assert_eq!(store.len(), 0);

    assert_eq!(deleted_platform.id, platform.id);
    assert_eq!(deleted_platform.name, platform.name);
    assert_eq!(deleted_platform.api_key_hash, platform.api_key_hash);
}

#[test]
fn test_delete_nonexistent_platform() {
    let mut store = PlatformStore::new();

    let deleted_platform = store.delete_platform(0xfeed_beef);

    assert!(deleted_platform.is_none());
}

#[test]
fn test_create_platform_unique_refuses_taken_name() {
    let mut store = PlatformStore::new();
    store.create_platform("Acme").unwrap();

    let outcome = store.create_platform_unique("ACME").unwrap();
    assert!(matches!(outcome, CreatePlatformOutcome::NameAlreadyInUse));
    assert_eq!(store.len(), 1);

    let outcome = store.create_platform_unique("Globex").unwrap();
    assert!(matches!(outcome, CreatePlatformOutcome::Created(_, _)));
    assert_eq!(store.len(), 2);
}

#[test]
fn test_reset_api_key() {
    let mut store = PlatformStore::new();
    let (old_key, platform) = store.create_platform("Rotating").unwrap();

    let (new_key, updated) = store.reset_api_key(platform.id).unwrap();

    assert_eq!(updated.id, platform.id);
    assert_eq!(updated.name, platform.name);
    assert_ne!(new_key, old_key);
    assert!(check_platform_api_key(&updated, &new_key));
    assert!(!check_platform_api_key(&updated, &old_key));

    assert!(store.reset_api_key(0xdead).is_none());
}

#[test]
fn test_issue_platform_end_to_end() {
    let mut store = PlatformStore::new();
    let (api_key, platform) = store.create_platform("Acme").unwrap();

    assert_eq!(api_key.len(), 69);
    assert!(check_platform_api_key(&platform, &api_key));

    let mut tampered = api_key[..api_key.len() - 1].to_string();
    tampered.push('!');
    assert!(!check_platform_api_key(&platform, &tampered));
}

#[test]
fn test_altered_and_empty_api_keys_fail() {
    let mut store = PlatformStore::new();
    let (api_key, platform) = store.create_platform("Strict").unwrap();

    let mut altered = api_key.clone().into_bytes();
    altered[0] = if altered[0] == b'A' { b'B' } else { b'A' };
    let altered = String::from_utf8(altered).unwrap();
    assert!(!check_platform_api_key(&platform, &altered));

    assert!(!check_platform_api_key(&platform, ""));
}

#[test]
fn test_validate_platform_name_length() {
    let ok = |name: &str| PostCreatePlatformRequest { name: name.to_string() }.validate();

    assert!(!ok(""));
    assert!(!ok("x"));
    assert!(ok("xy"));
    assert!(ok("a platform name"));
    assert!(ok("abcdefghijklmnopqrstuvwxyz12")); // 28 characters
    assert!(!ok("abcdefghijklmnopqrstuvwxyz123")); // 29 characters
}
