use cache_buster::hashing::hash_bytes;

#[test]
fn empty_content_has_the_well_known_digest() {
    assert_eq!(hash_bytes(&[]), "d41d8cd98f00b204e9800998ecf8427e".to_string());
}

#[test]
fn known_content_has_the_well_known_digest() {
    assert_eq!(hash_bytes(b"abc"), "900150983cd24fb0d6963f7d28e17f72".to_string());
}

#[test]
fn digest_is_deterministic() {
    let a: Vec<u8> = vec![1, 2, 3, 4, 5];
    let b: Vec<u8> = vec![1, 2, 3, 4, 5];
    assert_eq!(hash_bytes(&a), hash_bytes(&a));
    assert_eq!(hash_bytes(&a), hash_bytes(&b));
}

#[test]
fn digest_is_sensitive_to_content() {
    let a: Vec<u8> = vec![1, 2, 3, 4, 5];
    let b: Vec<u8> = vec![1, 2, 3, 4, 6];
    assert_ne!(hash_bytes(&a), hash_bytes(&b));
}

#[test]
fn digest_is_fixed_width() {
    assert_eq!(hash_bytes(&[]).len(), 32);
    assert_eq!(hash_bytes(b"x").len(), 32);
    assert_eq!(hash_bytes(&[0u8; 4096]).len(), 32);
}
