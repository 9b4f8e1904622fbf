use sculptor_core::store::{AvatarStore, StoreError};

const ABC_SHA256: [u8; 32] = [
    0xba, 0x78, 0x16, 0xbf, 0x8f, 0x01, 0xcf, 0xea, 0x41, 0x41, 0x40, 0xde, 0x5d, 0xae, 0x22, 0x23,
    0xb0, 0x03, 0x61, 0xa3, 0x96, 0x17, 0x7a, 0x9c, 0xb4, 0x10, 0xff, 0x61, 0xf2, 0x00, 0x15, 0xad,
];

const EMPTY_SHA256: [u8; 32] = [
    0xe3, 0xb0, 0xc4, 0x42, 0x98, 0xfc, 0x1c, 0x14, 0x9a, 0xfb, 0xf4, 0xc8, 0x99, 0x6f, 0xb9, 0x24,
    0x27, 0xae, 0x41, 0xe4, 0x64, 0x9b, 0x93, 0x4c, 0xa4, 0x95, 0x99, 0x1b, 0x78, 0x52, 0xb8, 0x55,
];

#[test]
fn absent_user_has_no_blob_and_no_hash() {
    let store = AvatarStore::new();
    assert_eq!(store.get(9), Err(StoreError::NotFound));
    assert_eq!(store.integrity_hash(9), Err(StoreError::NotFound));
    assert!(!store.contains(9));
}

#[test]
fn hash_is_sha256_of_stored_bytes() {
    let mut store = AvatarStore::new();
    assert!(!store.put(1, b"abc".to_vec()));
    assert_eq!(store.integrity_hash(1), Ok(ABC_SHA256.to_vec()));
    assert!(store.put(1, Vec::new()));
    let h = store.integrity_hash(1).unwrap();
    assert_eq!(h, EMPTY_SHA256.to_vec());
    assert_ne!(h, ABC_SHA256.to_vec());
}

#[test]
fn second_put_replaces_whole_blob() {
    let mut store = AvatarStore::new();
    let a = vec![1u8; 64];
    let b = vec![2u8; 3];
    store.put(5, a.clone());
    store.put(5, b.clone());
    assert_eq!(store.get(5), Ok(&b));
    store.put(5, a.clone());
    assert_eq!(store.get(5), Ok(&a));
}

#[test]
fn delete_removes_blob() {
    let mut store = AvatarStore::new();
    store.put(3, vec![1, 2, 3]);
    assert_eq!(store.delete(3), Ok(()));
    assert_eq!(store.get(3), Err(StoreError::NotFound));
    assert_eq!(store.delete(3), Err(StoreError::NotFound));
}
