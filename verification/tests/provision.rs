use checkpr::objects::{
    bytes_eq, checkout, classify_rehash, provision, CopyError, ObjectKind, ObjectRecord,
    ObjectStore, TreeEntry,
};

/// The repository object id of the blob `test content\n`.
fn blob_id() -> Vec<u8> {
    vec![
        0xd6, 0x70, 0x46, 0x0b, 0x4b, 0x4a, 0xec, 0xe5, 0x91, 0x5c, 0xaf, 0x5c, 0x68, 0xd1, 0x2f,
        0x56, 0x0a, 0x9f, 0xe3, 0xe4,
    ]
}

#[test]
fn copy_verifies_content_hash() {
    // re-hashing the copied bytes must reproduce the identifier
    let mut store = ObjectStore::new();
    let data = b"test content\n".to_vec();
    store
        .put_verified(ObjectKind::Blob, data.clone(), &blob_id())
        .expect("hash of the bytes reproduces the id");
    assert_eq!(store.get(&blob_id()), Some(&data));
}

#[test]
fn copy_aborts_on_mismatch() {
    // any mismatch aborts that copy and reports the offending id
    let mut store = ObjectStore::new();
    let wrong_id = vec![0u8; 20];
    match store.put_verified(ObjectKind::Blob, b"test content\n".to_vec(), &wrong_id) {
        Err(CopyError::HashMismatch { expected, actual }) => {
            assert_eq!(expected, wrong_id);
            assert_eq!(actual, blob_id());
        },
        other => panic!("expected a hash mismatch, got {:?}", other.is_ok()),
    }
    assert!(store.get(&wrong_id).is_none());
}

#[test]
fn hash_depends_on_kind() {
    // the same bytes hashed as a different object kind get another id
    let mut store = ObjectStore::new();
    match store.put_verified(ObjectKind::Commit, b"test content\n".to_vec(), &blob_id()) {
        Err(CopyError::HashMismatch { actual, .. }) => {
            assert!(!bytes_eq(&actual, &blob_id()));
        },
        _ => panic!("expected a hash mismatch"),
    }
}

#[test]
fn provision_round_trip() {
    // the checked-out working directory holds exactly the files of the
    // tree, byte-for-byte
    let objects = vec![ObjectRecord {
        id: blob_id(),
        kind: ObjectKind::Blob,
        data: b"test content\n".to_vec(),
    }];
    let tree = vec![
        TreeEntry { path: "README".to_string(), id: blob_id() },
        TreeEntry { path: "docs/copy.txt".to_string(), id: blob_id() },
    ];
    let repo = provision(&objects, &tree).expect("provisioning succeeds");
    assert_eq!(repo.files.len(), 2);
    assert_eq!(repo.files[0].0, "README");
    assert_eq!(repo.files[0].1, b"test content\n".to_vec());
    assert_eq!(repo.files[1].0, "docs/copy.txt");
    assert_eq!(repo.files[1].1, b"test content\n".to_vec());
}

#[test]
fn provision_reports_missing_object() {
    let objects = vec![ObjectRecord {
        id: blob_id(),
        kind: ObjectKind::Blob,
        data: b"test content\n".to_vec(),
    }];
    let missing = vec![1u8; 20];
    let tree = vec![TreeEntry { path: "a".to_string(), id: missing.clone() }];
    match provision(&objects, &tree) {
        Err(CopyError::MissingObject { id }) => assert_eq!(id, missing),
        _ => panic!("expected a missing object"),
    }
}

#[test]
fn checkout_reads_from_the_store() {
    let mut store = ObjectStore::new();
    store
        .put_verified(ObjectKind::Blob, b"test content\n".to_vec(), &blob_id())
        .expect("copy succeeds");
    let tree = vec![TreeEntry { path: "f".to_string(), id: blob_id() }];
    let files = checkout(&store, &tree).expect("checkout succeeds");
    assert_eq!(files, vec![("f".to_string(), b"test content\n".to_vec())]);
}

#[test]
fn rehash_verdicts_by_case() {
    let expected = blob_id();
    // a matching hash accepts the copy
    assert!(classify_rehash(Some(blob_id()), &expected).is_ok());
    // a differing hash is an integrity violation naming both ids
    match classify_rehash(Some(vec![0u8; 20]), &expected) {
        Err(CopyError::HashMismatch { expected: e, actual }) => {
            assert_eq!(e, blob_id());
            assert_eq!(actual, vec![0u8; 20]);
        },
        _ => panic!("expected a hash mismatch"),
    }
    // no hash at all reports unavailability under the expected id
    match classify_rehash(None, &expected) {
        Err(CopyError::HashUnavailable { id }) => assert_eq!(id, blob_id()),
        _ => panic!("expected an unavailability report"),
    }
}
