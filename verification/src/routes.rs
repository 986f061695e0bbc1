//! The answers of the `/user-keys` endpoints, from what storage reported.

use vstd::prelude::*;

use crate::error::ApiError;

verus! {

/// The answer to `GET /user-keys` once the caller is authenticated: the
/// stored key, 404 when there is none, 500 when storage failed.
pub fn user_key_response(lookup: Result<Option<String>, String>) -> (res: Result<String, ApiError>)
    ensures
        match lookup {
            Ok(Some(key)) => res == Ok::<String, ApiError>(key),
            Ok(None) => res == Err::<String, ApiError>(ApiError::KeyNotFound),
            Err(_) => res == Err::<String, ApiError>(ApiError::Internal),
        },
{
    match lookup {
        Ok(Some(key)) => Ok(key),
        Ok(None) => Err(ApiError::KeyNotFound),
        Err(_) => Err(ApiError::Internal),
    }
}

/// The answer to `POST /user-keys` once the caller is authenticated: success
/// when the key was stored, 500 when storage failed.
pub fn store_response(outcome: Result<(), String>) -> (res: Result<(), ApiError>)
    ensures
        match outcome {
            Ok(()) => res is Ok,
            Err(_) => res == Err::<(), ApiError>(ApiError::Internal),
        },
{
    match outcome {
        Ok(()) => Ok(()),
        Err(_) => Err(ApiError::Internal),
    }
}

} // verus!
