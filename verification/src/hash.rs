//! Credential hashing and verification.
//!
//! A stored credential is a self-describing PHC record string: algorithm
//! id, cost parameters, salt and digest in one value. Hashing draws a
//! fresh random salt, so two records for the same password differ;
//! verification recomputes the digest from the record's own parameters
//! and therefore depends on the password and the record alone.

use vstd::prelude::*;

use argon2::Argon2;
use argon2::password_hash::PasswordHash;
use argon2::password_hash::PasswordHasher;
use argon2::password_hash::PasswordVerifier;
use argon2::password_hash::SaltString;
use argon2::password_hash::rand_core::OsRng;
use vstd::string::StringExecFns;
use vstd::string::StringSliceAdditionalSpecFns;
use vstd::utf8::encode_utf8;

verus! {

/// How credential handling fails.
#[derive(Clone, Copy, Debug, PartialEq, Eq, Structural)]
pub enum CredentialError {
    /// A login or password given at provisioning time is outside the
    /// accepted length bounds.
    InvalidFormat,
    /// A stored record cannot be parsed; the login it belongs to cannot
    /// authenticate until the record is replaced.
    MalformedHash,
}

/// Whether a record string parses as a PHC hash record.
pub uninterp spec fn phc_parses(record: Seq<char>) -> bool;

/// Whether a password's recomputed digest matches the record.
pub uninterp spec fn argon2_verifies(password: Seq<char>, record: Seq<char>) -> bool;

/// What is known of a record that hashing produced for a password: it
/// parses back, and verifying that password against it succeeds.
pub open spec fn hash_produced(password: Seq<char>, record: Seq<char>) -> bool {
    phc_parses(record) && argon2_verifies(password, record)
}

/// A provisioning-time login or password must be 3 to 25 bytes long.
pub open spec fn len_in_bounds(s: Seq<char>) -> bool {
    3 <= encode_utf8(s).len() <= 25
}

/// Both provisioning-time inputs are within the length bounds.
pub open spec fn credentials_in_bounds(login: Seq<char>, password: Seq<char>) -> bool {
    len_in_bounds(login) && len_in_bounds(password)
}

/// Relies on argon2: `SaltString::generate` draws a fresh random salt and
/// `Argon2::hash_password` encodes the digest over it as a PHC string.
/// With the default parameters, a generated salt and the default output
/// length, `hash_password` has no failure path, so a record always comes
/// back. Which record is not stated -- the salt is random -- only what
/// holds of every outcome: the record parses back, and verifying the
/// same password against it succeeds, since `verify_password` recomputes
/// the digest with the salt and parameters embedded in the record.
/// `SaltString::generate` panics only if the operating system's random
/// source fails.
#[verifier::external_body]
fn argon2_hash(password: &str) -> (r: String)
    ensures
        phc_parses(r@) && argon2_verifies(password@, r@),
        r@.len() > 0,
{
    let salt = SaltString::generate(&mut OsRng);
    let hashed = Argon2::default()
        .hash_password(password.as_bytes(), &salt)
        .expect("argon2 hashing with default parameters cannot fail");
    hashed.to_string()
}

/// Relies on argon2's `PasswordHash::new` and `Argon2::verify_password`:
/// whether the record parses as a PHC string, and whether the password's
/// recomputed digest matches it, depend on the two strings alone.
#[verifier::external_body]
fn argon2_check(password: &str, record: &str) -> (r: Option<bool>)
    ensures
        r is Some <==> phc_parses(record@),
        r matches Some(ok) ==> ok == argon2_verifies(password@, record@),
{
    match PasswordHash::new(record) {
        Ok(parsed) => Some(
            Argon2::default().verify_password(password.as_bytes(), &parsed).is_ok(),
        ),
        Err(_) => None,
    }
}

/// Hashes a password for provisioning. Rejects out-of-bounds lengths as
/// `InvalidFormat`; within bounds it produces a fresh salted record.
pub fn hash(login: &str, password: &str) -> (r: Result<String, CredentialError>)
    ensures
        r is Ok <==> credentials_in_bounds(login@, password@),
        r matches Ok(rec) ==> hash_produced(password@, rec@) && rec@.len() > 0,
        r is Err ==> r == Err::<String, CredentialError>(CredentialError::InvalidFormat),
{
    let llen = login.as_bytes().len();
    let plen = password.as_bytes().len();
    proof {
        assert(llen == encode_utf8(login@).len());
        assert(plen == encode_utf8(password@).len());
    }
    if llen < 3 || llen > 25 || plen < 3 || plen > 25 {
        return Err(CredentialError::InvalidFormat);
    }
    Ok(argon2_hash(password))
}

/// The outcome of verifying a password against a stored record: an
/// unparseable record is a data-integrity fault, never a successful
/// login; a parseable one answers exactly whether the password matches.
pub open spec fn verify_outcome(password: Seq<char>, record: Seq<char>) -> Result<
    bool,
    CredentialError,
> {
    if phc_parses(record) {
        Ok(argon2_verifies(password, record))
    } else {
        Err(CredentialError::MalformedHash)
    }
}

/// Verifies a password against a stored record.
pub fn verify_password(password: &str, hash: &str) -> (r: Result<bool, CredentialError>)
    ensures
        r == verify_outcome(password@, hash@),
{
    match argon2_check(password, hash) {
        Some(ok) => Ok(ok),
        None => Err(CredentialError::MalformedHash),
    }
}

/// The provisioning line printed for a login and its hashed record.
pub open spec fn auth_data_line(login: Seq<char>, record: Seq<char>) -> Seq<char> {
    "Add this to the [Authentication] section of your config.toml:\n"@ + login + " = \""@ + record
        + "\""@
}

/// Hashes the password and renders the config line to paste into the
/// credential map.
pub fn encode_auth_data(login: &str, password: &str) -> (r: Result<String, CredentialError>)
    ensures
        r is Ok <==> credentials_in_bounds(login@, password@),
        r is Err ==> r == Err::<String, CredentialError>(CredentialError::InvalidFormat),
        r matches Ok(s) ==> exists|record: Seq<char>|
            hash_produced(password@, record) && s@ == auth_data_line(login@, record),
{
    let record = match hash(login, password) {
        Ok(rec) => rec,
        Err(e) => {
            return Err(e);
        },
    };
    let mut out = String::new();
    out.append("Add this to the [Authentication] section of your config.toml:\n");
    out.append(login);
    out.append(" = \"");
    out.append(record.as_str());
    out.append("\"");
    proof {
        assert(out@ =~= auth_data_line(login@, record@));
        assert(hash_produced(password@, record@) && out@ == auth_data_line(login@, record@));
    }
    Ok(out)
}

/// Verification succeeds on any record that hashing produced for the
/// same password, whichever salt was drawn for it.
pub proof fn lemma_hash_then_verify(password: Seq<char>, record: Seq<char>)
    requires
        hash_produced(password, record),
    ensures
        verify_outcome(password, record) == Ok::<bool, CredentialError>(true),
{
}

} // verus!
