use voting_machine::crypto::login_outcome;
use argon2::password_hash::{rand_core::OsRng, PasswordHasher, SaltString};
use argon2::Argon2;
use voting_machine::crypto::{admin_authenticate, decrypt_vote, encrypt_vote, encrypt_vote_with_nonce};
use voting_machine::model::ElectionError;

fn key() -> Vec<u8> {
    (0u8..32).collect()
}

#[test]
fn encrypted_ballot_decrypts_to_the_ballot() {
    let k = key();
    let text = "{\"vote_id\":\"x\",\"votes\":{\"president\":1}}";
    let m = encrypt_vote(&k, text).unwrap();
    assert_eq!(m.len(), 12 + text.len() + 16);
    assert_ne!(&m[12..12 + text.len()], text.as_bytes());
    assert_eq!(decrypt_vote(&k, &m).unwrap(), text.as_bytes().to_vec());
}

#[test]
fn each_encryption_uses_a_fresh_nonce() {
    let k = key();
    let a = encrypt_vote(&k, "same ballot").unwrap();
    let b = encrypt_vote(&k, "same ballot").unwrap();
    assert_ne!(a, b);
    assert_eq!(decrypt_vote(&k, &a).unwrap(), decrypt_vote(&k, &b).unwrap());
}

#[test]
fn empty_ballot_text_round_trips() {
    let k = key();
    let m = encrypt_vote(&k, "").unwrap();
    assert_eq!(m.len(), 28);
    assert_eq!(decrypt_vote(&k, &m).unwrap(), Vec::<u8>::new());
}

#[test]
fn tampered_ballot_is_refused() {
    let k = key();
    let mut m = encrypt_vote(&k, "ballot").unwrap();
    let last = m.len() - 1;
    m[last] ^= 1;
    assert_eq!(decrypt_vote(&k, &m), Err(ElectionError::Decryption));
}

#[test]
fn ballot_under_another_key_is_refused() {
    let m = encrypt_vote(&key(), "ballot").unwrap();
    let other = vec![7u8; 32];
    assert_eq!(decrypt_vote(&other, &m), Err(ElectionError::Decryption));
}

#[test]
fn message_shorter_than_a_tag_is_refused() {
    let k = key();
    let m = vec![0u8; 20];
    assert_eq!(decrypt_vote(&k, &m), Err(ElectionError::Decryption));
}

fn hash(password: &str) -> String {
    let salt = SaltString::generate(&mut OsRng);
    Argon2::default().hash_password(password.as_bytes(), &salt).unwrap().to_string()
}

fn rec(user: &str, hash: &str) -> Vec<String> {
    vec![user.to_string(), hash.to_string()]
}

#[test]
fn admin_with_matching_password_is_accepted() {
    let records = vec![rec("root", &hash("secret")), rec("admin", &hash("hunter2"))];
    assert_eq!(admin_authenticate(&records, "admin", "hunter2"), Ok(true));
    assert_eq!(admin_authenticate(&records, "root", "secret"), Ok(true));
}

#[test]
fn wrong_password_or_user_is_refused() {
    let records = vec![rec("root", &hash("secret"))];
    assert_eq!(admin_authenticate(&records, "root", "Secret"), Ok(false));
    assert_eq!(admin_authenticate(&records, "admin", "secret"), Ok(false));
    assert_eq!(admin_authenticate(&Vec::new(), "root", "secret"), Ok(false));
}

#[test]
fn malformed_hash_anywhere_fails_the_check() {
    let records = vec![rec("root", &hash("secret")), rec("other", "not-a-hash")];
    assert_eq!(admin_authenticate(&records, "root", "secret"), Err(ElectionError::MalformedPasswordHash));
}

#[test]
fn login_outcome_needs_every_hash_well_formed() {
    assert_eq!(login_outcome(&vec![true, true], &vec![false, true]), Ok(true));
    assert_eq!(login_outcome(&vec![true, true], &vec![false, false]), Ok(false));
    assert_eq!(login_outcome(&vec![true, false], &vec![true, false]), Err(ElectionError::MalformedPasswordHash));
    assert_eq!(login_outcome(&Vec::new(), &Vec::new()), Ok(false));
}

#[test]
fn sealing_with_a_given_nonce_is_deterministic() {
    let k = key();
    let nonce: Vec<u8> = (100u8..112).collect();
    let a = encrypt_vote_with_nonce(&k, &nonce, "ballot").unwrap();
    let b = encrypt_vote_with_nonce(&k, &nonce, "ballot").unwrap();
    assert_eq!(a, b);
    assert_eq!(&a[..12], &nonce[..]);
    assert_eq!(a.len(), 12 + 6 + 16);
    assert_ne!(&a[12..18], b"ballot");
    assert_eq!(decrypt_vote(&k, &a).unwrap(), b"ballot".to_vec());
    let other: Vec<u8> = (0u8..12).collect();
    assert_ne!(encrypt_vote_with_nonce(&k, &other, "ballot").unwrap()[12..], a[12..]);
}
