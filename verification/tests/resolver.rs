use safe_ffi::{
    get_final_subdirectory, AccessLevel, Client, DirectoryKey, DirectoryListing,
    DirectoryMetadata, FfiError, File,
};

fn key(id: u64) -> DirectoryKey {
    DirectoryKey { id, type_tag: 100, versioned: false, access_level: AccessLevel::Private }
}

fn meta(name: &str, id: u64) -> DirectoryMetadata {
    DirectoryMetadata { name: name.to_string(), key: key(id) }
}

fn listing(name: &str, id: u64, subs: Vec<DirectoryMetadata>, files: Vec<File>) -> DirectoryListing {
    DirectoryListing { metadata: meta(name, id), sub_directories: subs, files }
}

/// A client whose root has sub-directories `abc` (id 1) and `d` (id 2);
/// `abc` contains `inner` (id 3).
fn test_client() -> Client {
    let root = listing("root", 0, vec![meta("abc", 1), meta("d", 2)], Vec::new());
    let abc = listing("abc", 1, vec![meta("inner", 3)], Vec::new());
    let d = listing("d", 2, Vec::new(), Vec::new());
    let inner = listing("inner", 3, Vec::new(), Vec::new());
    Client {
        root,
        directories: vec![(key(1), abc), (key(2), d), (key(3), inner)],
    }
}

#[test]
fn resolve_empty_tokens_returns_root() {
    let client = test_client();
    let resolved = get_final_subdirectory(&Vec::new(), &client).unwrap();
    assert_eq!(resolved.metadata.name, "root".to_string());
    assert_eq!(resolved.sub_directories.len(), 2);
    assert_eq!(resolved.sub_directories[0].name, "abc".to_string());
    assert_eq!(resolved.sub_directories[1].name, "d".to_string());
}

#[test]
fn resolve_walks_segments_in_order() {
    let client = test_client();
    let tokens = vec!["abc".to_string(), "inner".to_string()];
    let resolved = get_final_subdirectory(&tokens, &client).unwrap();
    assert_eq!(resolved.metadata.name, "inner".to_string());
    assert_eq!(resolved.metadata.key.id, 3);
}

#[test]
fn resolve_one_segment_fetches_by_stored_key() {
    let client = test_client();
    let tokens = vec!["d".to_string()];
    let resolved = get_final_subdirectory(&tokens, &client).unwrap();
    assert_eq!(resolved.metadata.name, "d".to_string());
    assert_eq!(resolved.metadata.key.id, 2);
    assert!(resolved.sub_directories.is_empty());
}

#[test]
fn resolve_missing_segment_fails_with_path_not_found() {
    let client = test_client();
    let tokens = vec!["nope".to_string(), "abc".to_string()];
    let result = get_final_subdirectory(&tokens, &client);
    assert_eq!(result.err(), Some(FfiError::PathNotFound));
}

#[test]
fn resolve_aborts_at_first_missing_segment() {
    let client = test_client();
    // `abc` exists under the root, but it has no `missing`; the walk must
    // fail there even though a further segment would again be `abc`.
    let tokens = vec!["abc".to_string(), "missing".to_string(), "abc".to_string()];
    let result = get_final_subdirectory(&tokens, &client);
    assert_eq!(result.err(), Some(FfiError::PathNotFound));
}

#[test]
fn resolve_unknown_key_reports_service_failure() {
    // The root advertises `ghost`, but the service has no listing stored
    // under its key.
    let root = listing("root", 0, vec![meta("ghost", 9)], Vec::new());
    let client = Client { root, directories: Vec::new() };
    let tokens = vec!["ghost".to_string()];
    let result = get_final_subdirectory(&tokens, &client);
    assert_eq!(result.err(), Some(FfiError::NfsError));
}

#[test]
fn listing_getters_expose_entries() {
    let client = test_client();
    let subs = client.root.get_sub_directories();
    assert_eq!(subs.len(), 2);
    assert_eq!(subs[0].name, "abc".to_string());
    assert!(client.root.get_files().is_empty());
}

#[test]
fn client_get_finds_first_match() {
    let client = test_client();
    let fetched = client.get(&key(2)).unwrap();
    assert_eq!(fetched.metadata.name, "d".to_string());
    assert_eq!(client.get(&key(42)).err(), Some(FfiError::NfsError));
}
