use safe_ffi::{
    get_file_content, get_file_size, get_reader, AccessLevel, DirectoryKey, DirectoryListing,
    DirectoryMetadata, FfiError, File,
};

fn dir_with_files(files: Vec<File>) -> DirectoryListing {
    DirectoryListing {
        metadata: DirectoryMetadata {
            name: "docs".to_string(),
            key: DirectoryKey {
                id: 7,
                type_tag: 100,
                versioned: false,
                access_level: AccessLevel::Public,
            },
        },
        sub_directories: Vec::new(),
        files,
    }
}

fn sample_dir() -> DirectoryListing {
    dir_with_files(vec![
        File { name: "notes.txt".to_string(), content: vec![10, 20, 30, 40, 50] },
        File { name: "empty".to_string(), content: Vec::new() },
    ])
}

#[test]
fn file_size_reports_content_length() {
    let dir = sample_dir();
    assert_eq!(get_file_size(&"notes.txt".to_string(), &dir), Ok(5));
    assert_eq!(get_file_size(&"empty".to_string(), &dir), Ok(0));
}

#[test]
fn file_content_returns_all_bytes() {
    let dir = sample_dir();
    let content = get_file_content(&"notes.txt".to_string(), &dir).unwrap();
    assert_eq!(content, vec![10, 20, 30, 40, 50]);
    assert_eq!(get_file_content(&"empty".to_string(), &dir).unwrap(), Vec::<u8>::new());
}

#[test]
fn content_length_equals_reported_size() {
    let dir = sample_dir();
    let name = "notes.txt".to_string();
    let size = get_file_size(&name, &dir).unwrap();
    let content = get_file_content(&name, &dir).unwrap();
    assert_eq!(content.len() as u64, size);
}

#[test]
fn absent_file_fails_with_file_not_found() {
    let dir = sample_dir();
    let name = "missing".to_string();
    assert_eq!(get_file_size(&name, &dir), Err(FfiError::FileNotFound));
    assert_eq!(get_file_content(&name, &dir), Err(FfiError::FileNotFound));
    assert!(get_reader(&name, &dir).is_err());
}

#[test]
fn reader_reads_ranges_and_rejects_overruns() {
    let dir = sample_dir();
    let reader = get_reader(&"notes.txt".to_string(), &dir).unwrap();
    assert_eq!(reader.size(), 5);
    assert_eq!(reader.read(0, 5), Ok(vec![10, 20, 30, 40, 50]));
    assert_eq!(reader.read(1, 3), Ok(vec![20, 30, 40]));
    assert_eq!(reader.read(5, 0), Ok(Vec::new()));
    assert_eq!(reader.read(3, 3), Err(FfiError::NfsError));
    assert_eq!(reader.read(6, 0), Err(FfiError::NfsError));
}

#[test]
fn duplicate_names_resolve_to_first_entry() {
    let dir = dir_with_files(vec![
        File { name: "a".to_string(), content: vec![1] },
        File { name: "a".to_string(), content: vec![2, 3] },
    ]);
    assert_eq!(get_file_size(&"a".to_string(), &dir), Ok(1));
    assert_eq!(get_file_content(&"a".to_string(), &dir), Ok(vec![1]));
}
