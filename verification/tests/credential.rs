use participant_registry::credential::{
    is_acceptable_secret, is_alphanumeric_char, issue, issue_from, verify,
    CredentialIssuanceFailure, IssuedCredential, SALT_LENGTH, SECRET_LENGTH,
};

const SALT: &str = "c29tZXNhbHRzb21lc2FsdA";

#[test]
fn issued_password_has_sixteen_alphanumeric_characters() {
    let credential = issue().expect("issuance");
    assert_eq!(credential.password.chars().count(), SECRET_LENGTH);
    assert_eq!(SECRET_LENGTH, 16);
    assert!(credential.password.chars().all(|c| c.is_ascii_alphanumeric()));
    assert!(is_acceptable_secret(&credential.password));
}

#[test]
fn issued_hash_is_an_argon2_phc_string() {
    let credential = issue().expect("issuance");
    assert!(credential.password_hash.starts_with("$argon2id$v=19$"));
    assert_ne!(credential.password_hash, credential.password);
    assert!(!credential.password_hash.contains(&credential.password));
}

#[test]
fn two_issuances_differ_in_secret_and_hash() {
    let first = issue().expect("issuance");
    let second = issue().expect("issuance");
    assert_ne!(first.password, second.password);
    assert_ne!(first.password_hash, second.password_hash);
}

#[test]
fn issued_hash_verifies_against_its_own_password_only() {
    let first = issue().expect("issuance");
    let second = issue().expect("issuance");
    assert!(verify(&first.password_hash, &first.password));
    assert!(verify(&second.password_hash, &second.password));
    assert!(!verify(&first.password_hash, &second.password));
    assert!(!verify(&second.password_hash, &first.password));
}

#[test]
fn same_secret_under_two_salts_gives_two_hashes() {
    let secret = "abcdefghij012345".to_string();
    let first = issue_from(secret.clone(), SALT).expect("issuance");
    let second = issue_from(secret.clone(), "YW5vdGhlcnNhbHRhbm90aA").expect("issuance");
    assert_eq!(first.password, secret);
    assert_eq!(second.password, secret);
    assert_ne!(first.password_hash, second.password_hash);
    assert!(verify(&first.password_hash, &secret));
    assert!(verify(&second.password_hash, &secret));
}

#[test]
fn issuing_from_a_given_secret_and_salt_is_repeatable() {
    let first = issue_from("ABCDEFGHabcdefgh0".to_string(), SALT).expect("issuance");
    let second = issue_from("ABCDEFGHabcdefgh0".to_string(), SALT).expect("issuance");
    assert_eq!(first.password_hash, second.password_hash);
    assert!(first.password_hash.contains(SALT));
    assert_ne!(first.password_hash, first.password);
}

#[test]
fn short_secret_is_refused() {
    let r = issue_from("abcdefghij01234".to_string(), SALT);
    assert_eq!(r.err(), Some(CredentialIssuanceFailure::UnusableSecret));
}

#[test]
fn secret_with_other_characters_is_refused() {
    let r = issue_from("abcdefghij01234!".to_string(), SALT);
    assert_eq!(r.err(), Some(CredentialIssuanceFailure::UnusableSecret));
    let r = issue_from("abcdefghij01234é".to_string(), SALT);
    assert_eq!(r.err(), Some(CredentialIssuanceFailure::UnusableSecret));
}

#[test]
fn unusable_salt_fails_the_hash_derivation() {
    let r = issue_from("abcdefghij012345".to_string(), "");
    assert_eq!(r.err(), Some(CredentialIssuanceFailure::HashDerivation));
    let r = issue_from("abcdefghij012345".to_string(), "not a salt!");
    assert_eq!(r.err(), Some(CredentialIssuanceFailure::HashDerivation));
}

#[test]
fn verify_rejects_what_is_no_hash() {
    assert!(!verify("", "abcdefghij012345"));
    assert!(!verify("abcdefghij012345", "abcdefghij012345"));
}

#[test]
fn verify_rejects_a_wrong_password() {
    let credential = issue_from("abcdefghij012345".to_string(), SALT).expect("issuance");
    assert!(!verify(&credential.password_hash, "abcdefghij012346"));
    assert!(!verify(&credential.password_hash, ""));
}

#[test]
fn alphanumeric_characters_are_recognised() {
    for c in ['a', 'z', 'A', 'Z', '0', '9', 'm', 'Q', '5'] {
        assert!(is_alphanumeric_char(c));
    }
    for c in ['-', '_', ' ', '$', '/', '+', '=', 'é', '{', '@', '[', '`', ':'] {
        assert!(!is_alphanumeric_char(c));
    }
}

#[test]
fn acceptable_secret_needs_length_and_alphabet() {
    assert!(is_acceptable_secret("0123456789abcdef"));
    assert!(is_acceptable_secret("0123456789abcdefXYZ"));
    assert!(!is_acceptable_secret("0123456789abcde"));
    assert!(!is_acceptable_secret(""));
    assert!(!is_acceptable_secret("0123456789abcde$"));
}

#[test]
fn salt_length_is_that_of_sixteen_bytes() {
    assert_eq!(SALT_LENGTH, 22);
}

#[test]
fn credential_follows_the_derivation() {
    let made = IssuedCredential::from_derivation("abcdefghij012345".to_string(), Ok("h".to_string()))
        .expect("credential");
    assert_eq!(made.password, "abcdefghij012345");
    assert_eq!(made.password_hash, "h");
    let failed = IssuedCredential::from_derivation(
        "abcdefghij012345".to_string(),
        Err(argon2::password_hash::Error::Password),
    );
    assert_eq!(failed.err(), Some(CredentialIssuanceFailure::HashDerivation));
}

#[test]
fn issued_hash_carries_a_fresh_salt_of_twenty_two_characters() {
    let first = issue().expect("issuance");
    let second = issue().expect("issuance");
    let salt = |hash: &str| hash.split('$').nth(4).map(str::to_string).expect("salt");
    assert_eq!(salt(&first.password_hash).chars().count(), SALT_LENGTH);
    assert_eq!(salt(&second.password_hash).chars().count(), SALT_LENGTH);
    assert_ne!(salt(&first.password_hash), salt(&second.password_hash));
}
