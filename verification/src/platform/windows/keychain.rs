//! Windows credentials go through the same `keyring` calls as on Linux
//! (the crate's credential store for the platform); what the store holds is machine
//! state, and each outcome is reported as `platform::linux::keychain`
//! decides.

use vstd::prelude::*;
use crate::error::AppResult;
use crate::platform::linux::keychain as store;
use crate::platform::linux::keychain::io_error_prefixed;
use crate::platform::traits::PlatformKeychain;

verus! {

pub struct WindowsKeychain;

impl PlatformKeychain for WindowsKeychain {
    fn store_key(service: &str, account: &str, password: &str) -> (r: AppResult<()>)
        ensures
            r matches Err(e) ==> io_error_prefixed(e, "keychain entry creation failed: "@)
                || io_error_prefixed(e, "keychain store failed: "@),
    {
        store::store_key(service, account, password)
    }

    fn get_key(service: &str, account: &str) -> (r: AppResult<Option<String>>)
        ensures
            r matches Err(e) ==> io_error_prefixed(e, "keychain entry creation failed: "@)
                || io_error_prefixed(e, "keychain read failed: "@),
    {
        store::get_key(service, account)
    }

    fn delete_key(service: &str, account: &str) -> (r: AppResult<()>)
        ensures
            r matches Err(e) ==> io_error_prefixed(e, "keychain entry creation failed: "@)
                || io_error_prefixed(e, "keychain delete failed: "@),
    {
        store::delete_key(service, account)
    }
}

/// Stores `password` for `(service, account)`.
pub fn store_key(service: &str, account: &str, password: &str) -> (r: AppResult<()>)
    ensures
        r matches Err(e) ==> io_error_prefixed(e, "keychain entry creation failed: "@)
            || io_error_prefixed(e, "keychain store failed: "@),
{
    WindowsKeychain::store_key(service, account, password)
}

/// The password stored for `(service, account)`, if any.
pub fn get_key(service: &str, account: &str) -> (r: AppResult<Option<String>>)
    ensures
        r matches Err(e) ==> io_error_prefixed(e, "keychain entry creation failed: "@)
            || io_error_prefixed(e, "keychain read failed: "@),
{
    WindowsKeychain::get_key(service, account)
}

/// Deletes the credential for `(service, account)`; a missing one is fine.
pub fn delete_key(service: &str, account: &str) -> (r: AppResult<()>)
    ensures
        r matches Err(e) ==> io_error_prefixed(e, "keychain entry creation failed: "@)
            || io_error_prefixed(e, "keychain delete failed: "@),
{
    WindowsKeychain::delete_key(service, account)
}

} // verus!
