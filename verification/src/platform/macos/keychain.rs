//! macOS Keychain decisions: how the Security framework's answers are
//! reported. The generic-password calls are made by the application layer.

use vstd::prelude::*;
use crate::error::{AppError, AppResult, io_failure};
use crate::unicode::concat;

verus! {

pub struct MacosKeychain;

/// `errSecItemNotFound`: the keychain holds no such item.
pub const ERR_SEC_ITEM_NOT_FOUND: i32 = -25300;

/// What storing reports: the framework's error message on failure.
pub fn store_outcome(r: Result<(), String>) -> (o: AppResult<()>)
    ensures
        r is Ok ==> o is Ok,
        r matches Err(d) ==> io_failure(o, "Keychain store failed: "@ + d@),
{
    match r {
        Ok(()) => Ok(()),
        Err(d) => Err(AppError::Io(concat("Keychain store failed: ", d.as_str()))),
    }
}

/// What a lookup reports. `found` is the password decoded as UTF-8 (or why
/// it did not decode); `failure` the framework's error code and message.
pub fn read_outcome(r: Result<Result<String, String>, (i32, String)>) -> (o: AppResult<Option<String>>)
    ensures
        r matches Ok(Ok(p)) ==> o == Ok::<Option<String>, AppError>(Some(p)),
        r matches Ok(Err(d)) ==> io_failure(o, "Keychain decode failed: "@ + d@),
        r matches Err((c, _)) && c == ERR_SEC_ITEM_NOT_FOUND ==> o == Ok::<Option<String>, AppError>(None),
        r matches Err((c, d)) ==> (c != ERR_SEC_ITEM_NOT_FOUND ==> io_failure(o, "Keychain read failed: "@ + d@)),
{
    match r {
        Ok(Ok(p)) => Ok(Some(p)),
        Ok(Err(d)) => Err(AppError::Io(concat("Keychain decode failed: ", d.as_str()))),
        Err((c, d)) => {
            if c == ERR_SEC_ITEM_NOT_FOUND {
                Ok(None)
            } else {
                Err(AppError::Io(concat("Keychain read failed: ", d.as_str())))
            }
        },
    }
}

/// What a deletion reports: deleting a missing item succeeds.
pub fn delete_outcome(r: Result<(), (i32, String)>) -> (o: AppResult<()>)
    ensures
        r is Ok ==> o is Ok,
        r matches Err((c, _)) && c == ERR_SEC_ITEM_NOT_FOUND ==> o is Ok,
        r matches Err((c, d)) ==> (c != ERR_SEC_ITEM_NOT_FOUND ==> io_failure(o, "Keychain delete failed: "@ + d@)),
{
    match r {
        Ok(()) => Ok(()),
        Err((c, d)) => {
            if c == ERR_SEC_ITEM_NOT_FOUND {
                Ok(())
            } else {
                Err(AppError::Io(concat("Keychain delete failed: ", d.as_str())))
            }
        },
    }
}

} // verus!
