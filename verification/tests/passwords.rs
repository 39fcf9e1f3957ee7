use ropds::password::{generate_opds_password, hash, verify};

#[test]
fn test_hash_and_verify() {
    let pw = "correct-horse-battery-staple";
    let hashed = hash(pw).expect("Argon2 hashing should not fail");
    assert!(hashed.starts_with("$argon2"));
    assert!(verify(pw, &hashed));
}

#[test]
fn test_wrong_password() {
    let hashed = hash("real-password").expect("Argon2 hashing should not fail");
    assert!(!verify("wrong-password", &hashed));
}

#[test]
fn test_garbage_hash() {
    assert!(!verify("anything", "not-a-valid-hash"));
    assert!(!verify("anything", ""));
}

#[test]
fn test_different_hashes_for_same_password() {
    let h1 = hash("same").expect("Argon2 hashing should not fail");
    let h2 = hash("same").expect("Argon2 hashing should not fail");
    assert_ne!(h1, h2);
    assert!(verify("same", &h1));
    assert!(verify("same", &h2));
}

#[test]
fn test_generate_opds_password_length_and_charset() {
    let pw = generate_opds_password();
    assert_eq!(pw.len(), 16);
    assert!(pw.chars().all(|c| c.is_alphanumeric()));
}

#[test]
fn test_generate_opds_password_unique() {
    let a = generate_opds_password();
    let b = generate_opds_password();
    assert_ne!(a, b, "passwords should be random");
}
