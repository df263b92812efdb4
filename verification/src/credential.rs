use vstd::prelude::*;
use vstd::string::*;
use argon2::password_hash::{PasswordHash, PasswordHasher, PasswordVerifier, SaltString};
use argon2::Argon2;
use rand::distributions::{Alphanumeric, DistString};
use rand::rngs::OsRng;

verus! {

/// Number of characters in every one-time password that `issue` generates.
pub const SECRET_LENGTH: usize = 16;

/// Number of characters of a freshly generated salt.
pub const SALT_LENGTH: usize = 22;

/// An ASCII letter or digit.
pub open spec fn is_alphanumeric(c: char) -> bool {
    ||| 'a' <= c <= 'z'
    ||| 'A' <= c <= 'Z'
    ||| '0' <= c <= '9'
}

/// A cleartext secret the issuer is willing to hash: at least
/// `SECRET_LENGTH` characters, each an ASCII letter or digit.
pub open spec fn acceptable_secret(secret: Seq<char>) -> bool {
    &&& secret.len() >= SECRET_LENGTH
    &&& forall|i: int| 0 <= i < secret.len() ==> is_alphanumeric(#[trigger] secret[i])
}

/// The PHC string that Argon2id with its default parameters derives from a
/// password and a B64 salt, or `None` where the derivation fails.
pub uninterp spec fn argon2_phc_string(password: Seq<char>, salt: Seq<char>) -> Option<Seq<char>>;

/// Whether Argon2 accepts `password` for the PHC string `hash`.
pub uninterp spec fn argon2_accepts(hash: Seq<char>, password: Seq<char>) -> bool;

#[verifier::external_type_specification]
#[verifier::external_body]
pub struct ExPasswordHashError(argon2::password_hash::Error);

/// Why no credential was issued.
#[derive(Clone, Copy, Debug, PartialEq, Eq, Structural)]
pub enum CredentialIssuanceFailure {
    /// The secret handed to the issuer is too short or not alphanumeric.
    UnusableSecret,
    /// The password hash could not be derived.
    HashDerivation,
}

/// A one-time password with the hash that is stored for it.
#[derive(Debug)]
pub struct IssuedCredential {
    /// Cleartext secret, to be delivered once and never stored.
    pub password: String,
    /// PHC string to persist.
    pub password_hash: String,
}

/// Whether `hash` is a hash that the issuer stores for `password`: the
/// password is an acceptable secret, the hash is its Argon2 hash under some
/// salt, and Argon2 accepts the password for it.
pub open spec fn issued_for(password: Seq<char>, hash: Seq<char>) -> bool {
    &&& acceptable_secret(password)
    &&& exists|salt: Seq<char>| #[trigger] argon2_phc_string(password, salt) == Some(hash)
    &&& argon2_accepts(hash, password)
}

impl IssuedCredential {
    /// What the issuer guarantees of every credential it hands out.
    pub open spec fn well_formed(&self) -> bool {
        issued_for(self.password@, self.password_hash@)
    }
}

/// `rand`'s `Alphanumeric.sample_string` on the thread-local generator:
/// `len` characters, each drawn from `A-Z`, `a-z`, `0-9`.
#[verifier::external_body]
fn random_alphanumeric(len: usize) -> (secret: String)
    ensures
        secret@.len() == len,
        forall|i: int| 0 <= i < secret@.len() ==> is_alphanumeric(#[trigger] secret@[i]),
{
    Alphanumeric.sample_string(&mut rand::thread_rng(), len)
}

/// `SaltString::generate` on the operating system's generator: sixteen
/// random bytes, which encode as 22 B64 characters.
#[verifier::external_body]
fn random_salt() -> (salt: String)
    ensures
        salt@.len() == SALT_LENGTH,
{
    SaltString::generate(&mut OsRng).as_str().to_string()
}

/// `Argon2::default().hash_password` with the salt parsed by
/// `SaltString::from_b64`. The PHC string it returns is a function of the
/// password and the salt, and `verify_password` accepts the same password
/// for it, since verification recomputes the hash from the parameters and
/// salt recorded in the string.
#[verifier::external_body]
fn argon2_hash(password: &str, salt: &str) -> (r: Result<String, argon2::password_hash::Error>)
    ensures
        match r {
            Ok(hash) => argon2_phc_string(password@, salt@) == Some(hash@) && argon2_accepts(
                hash@,
                password@,
            ),
            Err(_) => argon2_phc_string(password@, salt@) is None,
        },
{
    let salt = SaltString::from_b64(salt)?;
    let hash = Argon2::default().hash_password(password.as_bytes(), &salt)?;
    Ok(hash.to_string())
}

/// `Argon2::default().verify_password` on the PHC string parsed by
/// `PasswordHash::new`; a string that does not parse is not accepted.
#[verifier::external_body]
fn argon2_verify(hash: &str, password: &str) -> (accepted: bool)
    ensures
        accepted == argon2_accepts(hash@, password@),
{
    match PasswordHash::new(hash) {
        Ok(parsed) => Argon2::default().verify_password(password.as_bytes(), &parsed).is_ok(),
        Err(_) => false,
    }
}

/// Whether `c` is an ASCII letter or digit.
pub fn is_alphanumeric_char(c: char) -> (b: bool)
    ensures
        b == is_alphanumeric(c),
{
    ('a' <= c && c <= 'z') || ('A' <= c && c <= 'Z') || ('0' <= c && c <= '9')
}

/// Whether `secret` is long enough and alphanumeric throughout.
pub fn is_acceptable_secret(secret: &str) -> (ok: bool)
    ensures
        ok == acceptable_secret(secret@),
{
    let n = secret.unicode_len();
    if n < SECRET_LENGTH {
        return false;
    }
    let mut i: usize = 0;
    while i < n
        invariant
            n == secret@.len(),
            i <= n,
            forall|j: int| 0 <= j < i ==> is_alphanumeric(#[trigger] secret@[j]),
        decreases n - i,
    {
        if !is_alphanumeric_char(secret.get_char(i)) {
            return false;
        }
        i += 1;
    }
    true
}

/// The result of issuing a credential for a given secret and salt.
pub open spec fn issue_outcome(secret: Seq<char>, salt: Seq<char>, r: Result<
    IssuedCredential,
    CredentialIssuanceFailure,
>) -> bool {
    if !acceptable_secret(secret) {
        r == Err::<IssuedCredential, _>(CredentialIssuanceFailure::UnusableSecret)
    } else {
        match argon2_phc_string(secret, salt) {
            None => r == Err::<IssuedCredential, _>(CredentialIssuanceFailure::HashDerivation),
            Some(hash) => {
                &&& r matches Ok(credential)
                &&& credential.password@ == secret
                &&& credential.password_hash@ == hash
                &&& credential.well_formed()
            },
        }
    }
}

impl IssuedCredential {
    /// The credential for an acceptable secret, by the result of deriving
    /// its hash: the secret with the derived hash, or a failure where the
    /// derivation failed.
    pub fn from_derivation(
        secret: String,
        derived: Result<String, argon2::password_hash::Error>,
    ) -> (r: Result<IssuedCredential, CredentialIssuanceFailure>)
        ensures
            match derived {
                Ok(hash) => r matches Ok(credential) && credential.password@ == secret@
                    && credential.password_hash@ == hash@,
                Err(_) => r == Err::<IssuedCredential, _>(
                    CredentialIssuanceFailure::HashDerivation,
                ),
            },
    {
        match derived {
            Ok(password_hash) => Ok(IssuedCredential { password: secret, password_hash }),
            Err(_) => Err(CredentialIssuanceFailure::HashDerivation),
        }
    }
}

/// Issues the credential for a secret and a salt that the caller drew.
///
/// The secret is refused unless it is acceptable; otherwise the credential
/// holds the secret itself and its Argon2 hash under `salt`, and issuance
/// fails exactly when the hash derivation does.
pub fn issue_from(secret: String, salt: &str) -> (r: Result<
    IssuedCredential,
    CredentialIssuanceFailure,
>)
    ensures
        issue_outcome(secret@, salt@, r),
{
    if !is_acceptable_secret(secret.as_str()) {
        return Err(CredentialIssuanceFailure::UnusableSecret);
    }
    let derived = argon2_hash(secret.as_str(), salt);
    IssuedCredential::from_derivation(secret, derived)
}

/// Issues a fresh credential: a random alphanumeric password of
/// `SECRET_LENGTH` characters and its Argon2 hash under a fresh random salt.
pub fn issue() -> (r: Result<IssuedCredential, CredentialIssuanceFailure>)
    ensures
        match r {
            Ok(credential) => credential.well_formed() && credential.password@.len()
                == SECRET_LENGTH,
            Err(failure) => failure == CredentialIssuanceFailure::HashDerivation,
        },
{
    let secret = random_alphanumeric(SECRET_LENGTH);
    let salt = random_salt();
    issue_from(secret, salt.as_str())
}

/// A credential that was issued verifies: Argon2 accepts its password for
/// its hash.
pub proof fn issued_credential_verifies(
    secret: Seq<char>,
    salt: Seq<char>,
    credential: IssuedCredential,
)
    requires
        issue_outcome(secret, salt, Ok(credential)),
    ensures
        credential.password@ == secret,
        argon2_accepts(credential.password_hash@, credential.password@),
        acceptable_secret(credential.password@),
{
}

/// Whether `password` is the secret that `hash` was derived from.
pub fn verify(hash: &str, password: &str) -> (accepted: bool)
    ensures
        accepted == argon2_accepts(hash@, password@),
{
    argon2_verify(hash, password)
}

} // verus!
