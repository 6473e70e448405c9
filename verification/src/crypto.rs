//! Ballot encryption with AES-256-GCM, and administrator authentication
//! against Argon2 password hashes.

use vstd::prelude::*;
use vstd::slice::slice_subrange;
use vstd::string::StringSliceAdditionalSpecFns;
use aes_gcm::aead::{Aead, AeadCore, KeyInit, OsRng};
use argon2::PasswordVerifier;
use crate::model::ElectionError;
use crate::registry::complete_records;
use crate::text::str_eq;

verus! {

/// Declares `aes_gcm::Error`, the opaque error of encryption and
/// decryption.
#[verifier::external_type_specification]
#[verifier::external_body]
pub struct ExAeadError(aes_gcm::Error);

/// The length of an AES-256 key, in bytes.
pub open spec fn key_len() -> nat {
    32
}

/// The length of an AES-GCM nonce, in bytes.
pub open spec fn nonce_len() -> nat {
    12
}

/// The length of an AES-GCM authentication tag, in bytes.
pub open spec fn tag_len() -> nat {
    16
}

/// The longest plaintext AES-GCM encrypts, in bytes.
pub open spec fn max_plaintext_len() -> nat {
    68719476736
}

/// The ciphertext, tag included, that AES-256-GCM gives for `plaintext`
/// under `key` and `nonce` with no associated data.
pub uninterp spec fn aes256_gcm_seal(key: Seq<u8>, nonce: Seq<u8>, plaintext: Seq<u8>) -> Seq<u8>;

/// The plaintext that AES-256-GCM recovers from `ciphertext` under `key` and
/// `nonce` with no associated data, or `None` when the tag does not
/// authenticate it.
pub uninterp spec fn aes256_gcm_open(key: Seq<u8>, nonce: Seq<u8>, ciphertext: Seq<u8>) -> Option<
    Seq<u8>,
>;

/// Calls `Aes256Gcm::generate_key` with the operating system's random number
/// generator. The contract states only the key's length: its bytes are
/// random.
#[verifier::external_body]
pub(crate) fn generate_key() -> (key: Vec<u8>)
    ensures
        key@.len() == key_len(),
{
    aes_gcm::Aes256Gcm::generate_key(OsRng).to_vec()
}

/// Calls `Aes256Gcm::generate_nonce` with the operating system's random
/// number generator. The contract states only the nonce's length: its bytes
/// are random.
#[verifier::external_body]
fn generate_nonce() -> (nonce: Vec<u8>)
    ensures
        nonce@.len() == nonce_len(),
{
    aes_gcm::Aes256Gcm::generate_nonce(&mut OsRng).to_vec()
}

/// Calls `Aead::encrypt` of `Aes256Gcm` (no associated data). It fails
/// exactly when the plaintext is longer than 2^36 bytes; otherwise the
/// ciphertext is the plaintext's length plus the 16-byte tag, and
/// decrypting it under the same key and nonce gives the plaintext back.
#[verifier::external_body]
fn seal(key: &[u8], nonce: &[u8], plaintext: &[u8]) -> (r: Result<Vec<u8>, aes_gcm::Error>)
    requires
        key@.len() == key_len(),
        nonce@.len() == nonce_len(),
    ensures
        r is Ok <==> plaintext@.len() <= max_plaintext_len(),
        r matches Ok(c) ==> c@ == aes256_gcm_seal(key@, nonce@, plaintext@),
        r matches Ok(c) ==> c@.len() == plaintext@.len() + tag_len(),
        r matches Ok(c) ==> aes256_gcm_open(key@, nonce@, c@) == Some(plaintext@),
{
    let cipher = aes_gcm::Aes256Gcm::new(aes_gcm::Key::<aes_gcm::Aes256Gcm>::from_slice(key));
    cipher.encrypt(aes_gcm::Nonce::from_slice(nonce), plaintext)
}

/// Calls `Aead::decrypt` of `Aes256Gcm` (no associated data): the result is
/// the named decryption, failing when the ciphertext is shorter than the
/// tag. When a ciphertext that no encryption produced is accepted is left
/// unsaid.
#[verifier::external_body]
fn open(key: &[u8], nonce: &[u8], ciphertext: &[u8]) -> (r: Result<Vec<u8>, aes_gcm::Error>)
    requires
        key@.len() == key_len(),
        nonce@.len() == nonce_len(),
    ensures
        match r {
            Ok(p) => aes256_gcm_open(key@, nonce@, ciphertext@) == Some(p@),
            Err(_) => aes256_gcm_open(key@, nonce@, ciphertext@) is None,
        },
        ciphertext@.len() < tag_len() ==> r is Err,
{
    let cipher = aes_gcm::Aes256Gcm::new(aes_gcm::Key::<aes_gcm::Aes256Gcm>::from_slice(key));
    cipher.decrypt(aes_gcm::Nonce::from_slice(nonce), ciphertext)
}

/// The plaintext held by the encrypted ballot `message` under `key`: the
/// message is the nonce followed by the ciphertext.
pub open spec fn opened_ballot(key: Seq<u8>, message: Seq<u8>) -> Option<Seq<u8>> {
    aes256_gcm_open(key, message.take(nonce_len() as int), message.skip(nonce_len() as int))
}

/// Encrypts the text of a ballot under `key` and `nonce` and gives the nonce
/// followed by the ciphertext. Decrypting the result with [`decrypt_vote`]
/// under the same key gives the ballot's bytes back.
pub fn encrypt_vote_with_nonce(key: &[u8], nonce: &[u8], vote: &str) -> (r: Result<Vec<u8>, ElectionError>)
    requires
        key@.len() == key_len(),
        nonce@.len() == nonce_len(),
    ensures
        r is Ok <==> vote.spec_bytes().len() <= max_plaintext_len(),
        r is Err ==> r == Err::<Vec<u8>, ElectionError>(ElectionError::Encryption),
        r matches Ok(m) ==> m@ == nonce@ + aes256_gcm_seal(key@, nonce@, vote.spec_bytes()),
        r matches Ok(m) ==> m@.len() == nonce_len() + vote.spec_bytes().len() + tag_len(),
        r matches Ok(m) ==> opened_ballot(key@, m@) == Some(vote.spec_bytes()),
{
    let bytes = vote.as_bytes();
    match seal(key, nonce, bytes) {
        Ok(ciphertext) => {
            let mut message: Vec<u8> = Vec::new();
            message.extend_from_slice(nonce);
            let mut c = ciphertext;
            message.append(&mut c);
            assert(message@ =~= nonce@ + ciphertext@);
            assert(message@.take(nonce_len() as int) =~= nonce@);
            assert(message@.skip(nonce_len() as int) =~= ciphertext@);
            Ok(message)
        },
        Err(_) => Err(ElectionError::Encryption),
    }
}

/// Encrypts the text of a ballot under `key` with a fresh random nonce, as
/// [`encrypt_vote_with_nonce`] does with that nonce.
pub fn encrypt_vote(key: &[u8], vote: &str) -> (r: Result<Vec<u8>, ElectionError>)
    requires
        key@.len() == key_len(),
    ensures
        r is Ok <==> vote.spec_bytes().len() <= max_plaintext_len(),
        r is Err ==> r == Err::<Vec<u8>, ElectionError>(ElectionError::Encryption),
        r matches Ok(m) ==> m@.len() == nonce_len() + vote.spec_bytes().len() + tag_len(),
        r matches Ok(m) ==> m@.skip(nonce_len() as int) == aes256_gcm_seal(
            key@,
            m@.take(nonce_len() as int),
            vote.spec_bytes(),
        ),
        r matches Ok(m) ==> opened_ballot(key@, m@) == Some(vote.spec_bytes()),
{
    let nonce = generate_nonce();
    let r = encrypt_vote_with_nonce(key, nonce.as_slice(), vote);
    proof {
        if r is Ok {
            let m = r->Ok_0;
            assert(m@.take(nonce_len() as int) =~= nonce@);
            assert(m@.skip(nonce_len() as int) =~= aes256_gcm_seal(key@, nonce@, vote.spec_bytes()));
        }
    }
    r
}

/// Decrypts an encrypted ballot: the first 12 bytes are the nonce, the rest
/// the ciphertext. Fails when the ciphertext does not authenticate under
/// `key`.
pub fn decrypt_vote(key: &[u8], full_message: &Vec<u8>) -> (r: Result<Vec<u8>, ElectionError>)
    requires
        key@.len() == key_len(),
        full_message@.len() >= nonce_len(),
    ensures
        match opened_ballot(key@, full_message@) {
            Some(p) => r matches Ok(v) && v@ == p,
            None => r == Err::<Vec<u8>, ElectionError>(ElectionError::Decryption),
        },
{
    let all = full_message.as_slice();
    let nonce = slice_subrange(all, 0, 12);
    let ciphertext = slice_subrange(all, 12, all.len());
    match open(key, nonce, ciphertext) {
        Ok(plaintext) => Ok(plaintext),
        Err(_) => Err(ElectionError::Decryption),
    }
}

/// Whether `hash` is a well-formed PHC string, as `PasswordHash::new` judges.
pub uninterp spec fn phc_hash_parses(hash: Seq<char>) -> bool;

/// Whether Argon2, with the parameters and salt recorded in the PHC string
/// `hash`, maps `password` to the hash output recorded there.
pub uninterp spec fn argon2_accepts(hash: Seq<char>, password: Seq<u8>) -> bool;

/// Calls `PasswordHash::new` and says whether it parsed the string; which
/// strings are well-formed PHC strings is left to the name.
#[verifier::external_body]
pub(crate) fn password_hash_parses(hash: &str) -> (b: bool)
    ensures
        b == phc_hash_parses(hash@),
{
    argon2::PasswordHash::new(hash).is_ok()
}

/// Parses `hash` with `PasswordHash::new` and checks `password` against it
/// with `Argon2::default().verify_password`; an unparsable hash accepts
/// nothing. The Argon2 computation itself is left to the name.
#[verifier::external_body]
fn argon2_verify(password: &[u8], hash: &str) -> (b: bool)
    ensures
        b == argon2_accepts(hash@, password@),
        !phc_hash_parses(hash@) ==> !b,
{
    match argon2::PasswordHash::new(hash) {
        Ok(h) => argon2::Argon2::default().verify_password(password, &h).is_ok(),
        Err(_) => false,
    }
}

/// Some credential record names `username` and holds a hash that `password`
/// matches.
pub open spec fn credentials_accept(records: Seq<Vec<String>>, username: Seq<char>, password: Seq<u8>) -> bool {
    exists|i: int|
        0 <= i < records.len() && (#[trigger] records[i]@)[0]@ == username && argon2_accepts(
            records[i]@[1]@,
            password,
        )
}

/// Some credential record holds a malformed password hash.
pub open spec fn has_malformed_hash(records: Seq<Vec<String>>) -> bool {
    exists|i: int| 0 <= i < records.len() && !phc_hash_parses((#[trigger] records[i]@)[1]@)
}

/// The outcome of a login from what is known of each credential record:
/// whether its hash is well formed, and whether it names the user and its
/// hash accepts the password. Any malformed hash fails the login; otherwise
/// it succeeds when some record accepts.
pub fn login_outcome(hash_valid: &Vec<bool>, accepted: &Vec<bool>) -> (r: Result<bool, ElectionError>)
    requires
        hash_valid@.len() == accepted@.len(),
    ensures
        r is Err <==> exists|i: int| 0 <= i < hash_valid@.len() && !#[trigger] hash_valid@[i],
        r is Err ==> r == Err::<bool, ElectionError>(ElectionError::MalformedPasswordHash),
        r matches Ok(b) ==> b == exists|i: int| 0 <= i < accepted@.len() && #[trigger] accepted@[i],
{
    let mut success = false;
    let n = hash_valid.len();
    for i in 0..n
        invariant
            n == hash_valid@.len(),
            n == accepted@.len(),
            forall|j: int| 0 <= j < i ==> #[trigger] hash_valid@[j],
            success == exists|j: int| 0 <= j < i && #[trigger] accepted@[j],
    {
        if !hash_valid[i] {
            return Err(ElectionError::MalformedPasswordHash);
        }
        if accepted[i] {
            success = true;
        }
    }
    Ok(success)
}

/// Checks an administrator's login against the credential records (user
/// name, PHC password hash). Every record's hash must be well formed, else
/// the check fails; the login succeeds when some record has the user name
/// and a hash that the password matches.
pub fn admin_authenticate(records: &Vec<Vec<String>>, username: &str, password: &str) -> (r: Result<
    bool,
    ElectionError,
>)
    requires
        complete_records(records@),
    ensures
        r is Err <==> has_malformed_hash(records@),
        r is Err ==> r == Err::<bool, ElectionError>(ElectionError::MalformedPasswordHash),
        r matches Ok(b) ==> b == credentials_accept(records@, username@, password.spec_bytes()),
{
    let mut hash_valid: Vec<bool> = Vec::new();
    let mut accepted: Vec<bool> = Vec::new();
    let pw = password.as_bytes();
    let n = records.len();
    for i in 0..n
        invariant
            n == records@.len(),
            complete_records(records@),
            pw@ == password.spec_bytes(),
            hash_valid@.len() == i,
            accepted@.len() == i,
            forall|j: int| 0 <= j < i ==> #[trigger] hash_valid@[j] == phc_hash_parses(records@[j]@[1]@),
            forall|j: int|
                0 <= j < i ==> #[trigger] accepted@[j] == ((records@[j]@)[0]@ == username@
                    && argon2_accepts(records@[j]@[1]@, pw@)),
    {
        assert(records@[i as int]@.len() >= 2);
        let record = &records[i];
        hash_valid.push(password_hash_parses(record[1].as_str()));
        accepted.push(str_eq(record[0].as_str(), username) && argon2_verify(pw, record[1].as_str()));
    }
    let r = login_outcome(&hash_valid, &accepted);
    proof {
        if has_malformed_hash(records@) {
            let i = choose|i: int| 0 <= i < records@.len() && !phc_hash_parses((#[trigger] records@[i]@)[1]@);
            assert(!hash_valid@[i]);
        }
        if credentials_accept(records@, username@, pw@) {
            let i = choose|i: int|
                0 <= i < records@.len() && (#[trigger] records@[i]@)[0]@ == username@ && argon2_accepts(
                    records@[i]@[1]@,
                    pw@,
                );
            assert(accepted@[i]);
        }
    }
    r
}

} // verus!
