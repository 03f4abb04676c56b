//! Credentials through the `keyring` crate, whose store on Linux is the
//! Secret Service (libsecret / KWallet, reached over D-Bus).
//! What the store holds is machine state, so nothing is promised of what a
//! call returns; this module decides how each outcome is reported.

use vstd::prelude::*;
use keyring::Entry;
use crate::error::{AppError, AppResult};
use crate::platform::traits::PlatformKeychain;
use crate::unicode::concat;

verus! {

#[verifier::external_type_specification]
#[verifier::external_body]
pub struct ExEntry(Entry);

/// How a credential lookup or deletion failed.
pub enum KeyringFailure {
    /// The store holds no credential for the entry (`keyring::Error::NoEntry`).
    Missing,
    /// Any other failure, with its message.
    Other(String),
}

/// Calls `keyring::Entry::new(service, account)`; a failure is carried as
/// the error's message. Whether it succeeds depends on the platform store.
#[verifier::external_body]
fn keyring_entry(service: &str, account: &str) -> (r: Result<Entry, String>) {
    match Entry::new(service, account) {
        Ok(e) => Ok(e),
        Err(e) => Err(e.to_string()),
    }
}

/// Calls `Entry::set_password`; a failure is carried as its message.
#[verifier::external_body]
fn keyring_set_password(entry: &Entry, password: &str) -> (r: Result<(), String>) {
    match entry.set_password(password) {
        Ok(()) => Ok(()),
        Err(e) => Err(e.to_string()),
    }
}

/// Calls `Entry::get_password`; `keyring::Error::NoEntry` becomes
/// `Missing`, any other error `Other` with its message.
#[verifier::external_body]
fn keyring_get_password(entry: &Entry) -> (r: Result<String, KeyringFailure>) {
    match entry.get_password() {
        Ok(p) => Ok(p),
        Err(keyring::Error::NoEntry) => Err(KeyringFailure::Missing),
        Err(e) => Err(KeyringFailure::Other(e.to_string())),
    }
}

/// Calls `Entry::delete_credential`; `keyring::Error::NoEntry` becomes
/// `Missing`, any other error `Other` with its message.
#[verifier::external_body]
fn keyring_delete_credential(entry: &Entry) -> (r: Result<(), KeyringFailure>) {
    match entry.delete_credential() {
        Ok(()) => Ok(()),
        Err(keyring::Error::NoEntry) => Err(KeyringFailure::Missing),
        Err(e) => Err(KeyringFailure::Other(e.to_string())),
    }
}

/// An `Io` error whose message is `prefix` followed by `detail`.
pub open spec fn io_error_with(e: AppError, prefix: Seq<char>, detail: Seq<char>) -> bool {
    e matches AppError::Io(m) && m@ == prefix + detail
}

/// An `Io` error whose message starts with `prefix`.
pub open spec fn io_error_prefixed(e: AppError, prefix: Seq<char>) -> bool {
    e matches AppError::Io(m) && m@.len() >= prefix.len() && m@.take(prefix.len() as int) == prefix
}

proof fn lemma_prefixed(prefix: Seq<char>, detail: Seq<char>)
    ensures
        (prefix + detail).take(prefix.len() as int) == prefix,
{
    assert((prefix + detail).take(prefix.len() as int) =~= prefix);
}

/// The error for an entry that could not be created.
pub fn entry_failed(detail: String) -> (e: AppError)
    ensures
        io_error_with(e, "keychain entry creation failed: "@, detail@),
{
    AppError::Io(concat("keychain entry creation failed: ", detail.as_str()))
}

/// What storing reports for the store's answer.
pub fn store_outcome(r: Result<(), String>) -> (o: AppResult<()>)
    ensures
        r is Ok ==> o is Ok,
        r matches Err(d) ==> (o matches Err(e) && io_error_with(e, "keychain store failed: "@, d@)),
        o matches Err(e) ==> io_error_prefixed(e, "keychain store failed: "@),
{
    match r {
        Ok(()) => Ok(()),
        Err(d) => {
            proof { lemma_prefixed("keychain store failed: "@, d@); }
            Err(AppError::Io(concat("keychain store failed: ", d.as_str())))
        },
    }
}

/// What a lookup reports for the store's answer: the password, nothing for
/// a missing credential, an `Io` error otherwise.
pub fn read_outcome(r: Result<String, KeyringFailure>) -> (o: AppResult<Option<String>>)
    ensures
        r matches Ok(p) ==> o == Ok::<Option<String>, AppError>(Some(p)),
        r matches Err(KeyringFailure::Missing) ==> o == Ok::<Option<String>, AppError>(None),
        r matches Err(KeyringFailure::Other(d)) ==> (o matches Err(e) && io_error_with(e, "keychain read failed: "@, d@)),
        o matches Err(e) ==> io_error_prefixed(e, "keychain read failed: "@),
{
    match r {
        Ok(p) => Ok(Some(p)),
        Err(KeyringFailure::Missing) => Ok(None),
        Err(KeyringFailure::Other(d)) => {
            proof { lemma_prefixed("keychain read failed: "@, d@); }
            Err(AppError::Io(concat("keychain read failed: ", d.as_str())))
        },
    }
}

/// What a deletion reports: deleting a missing credential succeeds.
pub fn delete_outcome(r: Result<(), KeyringFailure>) -> (o: AppResult<()>)
    ensures
        r is Ok ==> o is Ok,
        r matches Err(KeyringFailure::Missing) ==> o is Ok,
        r matches Err(KeyringFailure::Other(d)) ==> (o matches Err(e) && io_error_with(e, "keychain delete failed: "@, d@)),
        o matches Err(e) ==> io_error_prefixed(e, "keychain delete failed: "@),
{
    match r {
        Ok(()) => Ok(()),
        Err(KeyringFailure::Missing) => Ok(()),
        Err(KeyringFailure::Other(d)) => {
            proof { lemma_prefixed("keychain delete failed: "@, d@); }
            Err(AppError::Io(concat("keychain delete failed: ", d.as_str())))
        },
    }
}

pub struct LinuxKeychain;

impl PlatformKeychain for LinuxKeychain {
    fn store_key(service: &str, account: &str, password: &str) -> (r: AppResult<()>)
        ensures
            r matches Err(e) ==> io_error_prefixed(e, "keychain entry creation failed: "@)
                || io_error_prefixed(e, "keychain store failed: "@),
    {
        match keyring_entry(service, account) {
            Ok(entry) => store_outcome(keyring_set_password(&entry, password)),
            Err(d) => {
                proof { lemma_prefixed("keychain entry creation failed: "@, d@); }
                Err(entry_failed(d))
            },
        }
    }

    fn get_key(service: &str, account: &str) -> (r: AppResult<Option<String>>)
        ensures
            r matches Err(e) ==> io_error_prefixed(e, "keychain entry creation failed: "@)
                || io_error_prefixed(e, "keychain read failed: "@),
    {
        match keyring_entry(service, account) {
            Ok(entry) => read_outcome(keyring_get_password(&entry)),
            Err(d) => {
                proof { lemma_prefixed("keychain entry creation failed: "@, d@); }
                Err(entry_failed(d))
            },
        }
    }

    fn delete_key(service: &str, account: &str) -> (r: AppResult<()>)
        ensures
            r matches Err(e) ==> io_error_prefixed(e, "keychain entry creation failed: "@)
                || io_error_prefixed(e, "keychain delete failed: "@),
    {
        match keyring_entry(service, account) {
            Ok(entry) => delete_outcome(keyring_delete_credential(&entry)),
            Err(d) => {
                proof { lemma_prefixed("keychain entry creation failed: "@, d@); }
                Err(entry_failed(d))
            },
        }
    }
}

/// Stores `password` for `(service, account)`.
pub fn store_key(service: &str, account: &str, password: &str) -> (r: AppResult<()>)
    ensures
        r matches Err(e) ==> io_error_prefixed(e, "keychain entry creation failed: "@)
            || io_error_prefixed(e, "keychain store failed: "@),
{
    LinuxKeychain::store_key(service, account, password)
}

/// The password stored for `(service, account)`, if any.
pub fn get_key(service: &str, account: &str) -> (r: AppResult<Option<String>>)
    ensures
        r matches Err(e) ==> io_error_prefixed(e, "keychain entry creation failed: "@)
            || io_error_prefixed(e, "keychain read failed: "@),
{
    LinuxKeychain::get_key(service, account)
}

/// Deletes the credential for `(service, account)`; a missing one is fine.
pub fn delete_key(service: &str, account: &str) -> (r: AppResult<()>)
    ensures
        r matches Err(e) ==> io_error_prefixed(e, "keychain entry creation failed: "@)
            || io_error_prefixed(e, "keychain delete failed: "@),
{
    LinuxKeychain::delete_key(service, account)
}

} // verus!
