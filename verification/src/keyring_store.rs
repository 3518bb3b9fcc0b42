//! Secure API key storage in the operating system's credential store.
//!
//! What the store holds depends on the machine, so nothing useful can be
//! promised about the secrets themselves; what is pinned down here is how
//! every outcome of the store's calls is folded into the crate's own
//! results: absence and storage unavailability read as "no key", and only
//! the failures the caller can act on surface as errors.

use vstd::prelude::*;

use crate::error::CliError;

verus! {

use vstd::string::StringExecFns;

/// The service name this crate's credentials are stored under.
fn service_name() -> (r: &'static str)
    ensures
        r@ == "linear-cli"@,
{
    "linear-cli"
}

#[verifier::external_type_specification]
#[verifier::external_body]
pub struct ExEntry(keyring::Entry);

/// How the credential store answered a read.
pub enum KeyringRead {
    /// The stored secret.
    Found(String),
    /// No secret is stored under the entry.
    Missing,
    /// No credential store is reachable.
    NoStorage,
    /// Some other failure, rendered.
    Failed(String),
}

/// How the credential store answered a delete.
pub enum KeyringDelete {
    /// The credential is gone now.
    Deleted,
    /// There was nothing to delete.
    Missing,
    /// Some other failure, rendered.
    Failed(String),
}

/// Relies on keyring::Entry::new: a handle for the service/user pair, or
/// the store's failure rendered as text.
#[verifier::external_body]
fn entry_new(service: &str, profile: &str) -> (r: Result<keyring::Entry, String>) {
    keyring::Entry::new(service, profile).map_err(|e| e.to_string())
}

/// Relies on keyring::Entry::get_password, telling its error cases
/// apart: a missing entry and an unreachable store are distinct answers.
#[verifier::external_body]
fn entry_get_password(entry: &keyring::Entry) -> (r: KeyringRead) {
    match entry.get_password() {
        Ok(password) => KeyringRead::Found(password),
        Err(keyring::Error::NoEntry) => KeyringRead::Missing,
        Err(keyring::Error::NoStorageAccess(_)) => KeyringRead::NoStorage,
        Err(e) => KeyringRead::Failed(e.to_string()),
    }
}

/// Relies on keyring::Entry::set_password.
#[verifier::external_body]
fn entry_set_password(entry: &keyring::Entry, password: &str) -> (r: Result<(), String>) {
    entry.set_password(password).map_err(|e| e.to_string())
}

/// Relies on keyring::Entry::delete_credential, telling a missing
/// credential apart from a real failure.
#[verifier::external_body]
fn entry_delete_credential(entry: &keyring::Entry) -> (r: KeyringDelete) {
    match entry.delete_credential() {
        Ok(()) => KeyringDelete::Deleted,
        Err(keyring::Error::NoEntry) => KeyringDelete::Missing,
        Err(e) => KeyringDelete::Failed(e.to_string()),
    }
}

/// How a read of the store folds into a caller's answer: a stored secret
/// comes through, and every other outcome — absence, an unreachable
/// store, any other failure — deliberately reads as "no key", so that
/// the caller falls back to other configuration instead of failing.
pub fn key_of_read(read: KeyringRead) -> (r: Result<Option<String>, CliError>)
    ensures
        read matches KeyringRead::Found(p) ==> r == Result::<Option<String>, CliError>::Ok(
            Option::Some(p),
        ),
        !(read is Found) ==> r == Result::<Option<String>, CliError>::Ok(
            Option::<String>::None,
        ),
{
    match read {
        KeyringRead::Found(password) => Result::Ok(Option::Some(password)),
        KeyringRead::Missing => Result::Ok(Option::None),
        KeyringRead::NoStorage => Result::Ok(Option::None),
        KeyringRead::Failed(_) => Result::Ok(Option::None),
    }
}

/// Get an API key from the keyring for a profile: the key when one is
/// stored, nothing when none is or the store cannot be read (reading
/// then falls back to other configuration), an error only when the entry
/// handle itself cannot be made.
pub fn get_key(profile: &str) -> (r: Result<Option<String>, CliError>)
    ensures
        r matches Result::Err(e) ==> (e.code == 1 && e.message@
            == "Failed to create keyring entry"@),
{
    let entry = match entry_new(service_name(), profile) {
        Result::Ok(entry) => entry,
        Result::Err(_) => {
            return Result::Err(CliError::new(1, "Failed to create keyring entry"));
        },
    };
    key_of_read(entry_get_password(&entry))
}

/// Store an API key in the keyring for a profile.
pub fn set_key(profile: &str, api_key: &str) -> (r: Result<(), CliError>)
    ensures
        r matches Result::Err(e) ==> (e.code == 1 && (e.message@
            == "Failed to create keyring entry"@ || e.message@
            == "Failed to store API key in keyring"@)),
{
    let entry = match entry_new(service_name(), profile) {
        Result::Ok(entry) => entry,
        Result::Err(_) => {
            return Result::Err(CliError::new(1, "Failed to create keyring entry"));
        },
    };
    match entry_set_password(&entry, api_key) {
        Result::Ok(_) => Result::Ok(()),
        Result::Err(_) => Result::Err(CliError::new(1, "Failed to store API key in keyring")),
    }
}

/// How a delete folds into a caller's answer: a deleted credential and
/// an already-absent one both count as success; only a real store
/// failure surfaces.
pub fn ack_of_delete(outcome: KeyringDelete) -> (r: Result<(), CliError>)
    ensures
        outcome is Deleted || outcome is Missing ==> r == Result::<(), CliError>::Ok(()),
        outcome matches KeyringDelete::Failed(_) ==> (r matches Result::Err(e) && e.code == 1
            && e.message@ == "Failed to delete API key from keyring"@),
{
    match outcome {
        KeyringDelete::Deleted => Result::Ok(()),
        KeyringDelete::Missing => Result::Ok(()),
        KeyringDelete::Failed(_) => Result::Err(
            CliError::new(1, "Failed to delete API key from keyring"),
        ),
    }
}

/// Delete an API key from the keyring for a profile; deleting an absent
/// key succeeds.
pub fn delete_key(profile: &str) -> (r: Result<(), CliError>)
    ensures
        r matches Result::Err(e) ==> (e.code == 1 && (e.message@
            == "Failed to create keyring entry"@ || e.message@
            == "Failed to delete API key from keyring"@)),
{
    let entry = match entry_new(service_name(), profile) {
        Result::Ok(entry) => entry,
        Result::Err(_) => {
            return Result::Err(CliError::new(1, "Failed to create keyring entry"));
        },
    };
    ack_of_delete(entry_delete_credential(&entry))
}

/// Check whether a credential store is available on this system, by a
/// non-destructive probe read.
pub fn is_available() -> (r: bool) {
    match entry_new(service_name(), "__test__") {
        Result::Ok(entry) => {
            match entry_get_password(&entry) {
                KeyringRead::NoStorage => false,
                _ => true,
            }
        },
        Result::Err(_) => false,
    }
}

} // verus!
