use risu::crypto::SecretKey;
use risu::keystore::KeyStore;

#[test]
fn the_key_store_starts_empty() {
    let keys = KeyStore::new();
    assert!(!keys.is_unlocked());
    assert!(keys.get().is_none());
}

#[test]
fn a_key_that_was_set_is_handed_out_as_a_copy() {
    let mut keys = KeyStore::new();
    keys.set(SecretKey::new([5u8; 32]));
    assert!(keys.is_unlocked());
    let first = keys.get().unwrap();
    let second = keys.get().unwrap();
    assert_eq!(first.as_bytes(), &[5u8; 32]);
    assert_eq!(second.as_bytes(), &[5u8; 32]);
    drop(first);
    assert_eq!(keys.get().unwrap().as_bytes(), &[5u8; 32]);
}

#[test]
fn setting_again_replaces_the_key() {
    let mut keys = KeyStore::new();
    keys.set(SecretKey::new([1u8; 32]));
    keys.set(SecretKey::new([2u8; 32]));
    assert_eq!(keys.get().unwrap().as_bytes(), &[2u8; 32]);
}

#[test]
fn clear_empties_the_slot() {
    let mut keys = KeyStore::new();
    keys.set(SecretKey::new([1u8; 32]));
    let copy = keys.get().unwrap();
    keys.clear();
    assert!(!keys.is_unlocked());
    assert!(keys.get().is_none());
    assert_eq!(copy.as_bytes(), &[1u8; 32]);
    keys.clear();
    assert!(keys.get().is_none());
}
