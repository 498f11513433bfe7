use todo_backend::password::{hash_password, verify_password};
use todo_backend::token::{generate_token, verify_token};

#[test]
fn token_is_base64_of_sha256_over_name_hash_and_secret() {
    assert_eq!(generate_token("alice", "hash"), "DGPqaPgbL3FKGYZtLZLfSSq35pnxuWG0jTQkh0+WFjU=");
    assert_eq!(
        generate_token("bob", "$2b$12$abcdefghijklmnopqrstuv"),
        "rP0M4hx48kwIwJHNZ21NPRL/4IlwAj1tz2kdkWFEMRE="
    );
}

#[test]
fn token_of_empty_inputs_covers_the_secret_alone() {
    assert_eq!(generate_token("", ""), "jIjiD1pgljMt8yd5bqHsIkovaFo7ze76aecF3vgWN8g=");
}

#[test]
fn token_is_deterministic() {
    let first = generate_token("carol", "some-hash");
    let second = generate_token("carol", "some-hash");
    assert_eq!(first, second);
    assert_eq!(first.len(), 44);
}

#[test]
fn token_changes_with_either_input() {
    let base = generate_token("carol", "some-hash");
    assert_ne!(base, generate_token("carol", "other-hash"));
    assert_ne!(base, generate_token("dave", "some-hash"));
}

#[test]
fn token_covers_the_plain_concatenation() {
    // The name and the hash are joined without a separator.
    assert_eq!(generate_token("ab", "c"), generate_token("a", "bc"));
    assert_eq!(generate_token("ab", "c"), "RwaLBAHMp31ZKwnyxNiefXPQTw2Gtc4cRLr0W0oeNLw=");
}

#[test]
fn verify_token_accepts_only_the_issued_token() {
    let token = generate_token("alice", "hash");
    assert!(verify_token(&token, "alice", "hash"));
    assert!(!verify_token(&token, "alice", "hash2"));
    assert!(!verify_token(&token, "alicf", "hash"));
    assert!(!verify_token("", "alice", "hash"));
    assert!(!verify_token("alice", "alice", "hash"));
}

#[test]
fn hashed_password_verifies_and_is_not_the_password() {
    let hash = hash_password("password1").unwrap();
    assert_ne!(hash, "password1");
    assert!(hash.starts_with("$2b$12$"));
    assert_eq!(hash.len(), 60);
    assert!(verify_password("password1", &hash));
    assert!(!verify_password("password2", &hash));
}

#[test]
fn known_bcrypt_hash_verifies() {
    let hash = "$2b$04$EGdrhbKUv8Oc9vGiXX0HQOxSg445d458Muh7DAHskb6QbtCvdxcie";
    assert!(verify_password("correctbatteryhorsestapler", hash));
    assert!(!verify_password("wrong", hash));
}

#[test]
fn unreadable_hash_matches_no_password() {
    assert!(!verify_password("password", "not-a-hash"));
    assert!(!verify_password("password", ""));
    assert!(!verify_password("not-a-hash", "not-a-hash"));
}
