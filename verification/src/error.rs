//! The errors a request can end in, with the text and HTTP status of each.

use vstd::prelude::*;
use vstd::string::StringExecFns;

verus! {

/// Why a request to the key connector was refused.
#[derive(Debug, Clone, PartialEq, Eq)]
pub enum ApiError {
    /// The request carried no usable bearer token.
    MissingToken,
    /// The bearer token failed validation; the text says why.
    InvalidToken(String),
    /// The caller is authenticated but has no stored key.
    KeyNotFound,
    /// Storage failed; details are not exposed to the caller.
    Internal,
}

impl ApiError {
    /// The human readable text of the error.
    pub open spec fn message_text(&self) -> Seq<char> {
        match self {
            ApiError::MissingToken => "missing or malformed Authorization header"@,
            ApiError::InvalidToken(detail) => "invalid access token: "@ + detail@,
            ApiError::KeyNotFound => "no key stored for this user"@,
            ApiError::Internal => "internal error"@,
        }
    }

    /// The HTTP status code the error is answered with.
    pub open spec fn status(&self) -> u16 {
        match self {
            ApiError::MissingToken => 401,
            ApiError::InvalidToken(_) => 401,
            ApiError::KeyNotFound => 404,
            ApiError::Internal => 500,
        }
    }

    /// The human readable text of the error, sent as the `message` of the
    /// response body.
    pub fn message(&self) -> (res: String)
        ensures
            res@ == self.message_text(),
    {
        match self {
            ApiError::MissingToken => String::from_str("missing or malformed Authorization header"),
            ApiError::InvalidToken(detail) => {
                let mut text = String::from_str("invalid access token: ");
                text.append(detail.as_str());
                text
            },
            ApiError::KeyNotFound => String::from_str("no key stored for this user"),
            ApiError::Internal => String::from_str("internal error"),
        }
    }

    /// The HTTP status code: authentication failures are 401, a missing key
    /// is 404 and storage failures are 500.
    pub fn status_code(&self) -> (res: u16)
        ensures
            res == self.status(),
    {
        match self {
            ApiError::MissingToken => 401,
            ApiError::InvalidToken(_) => 401,
            ApiError::KeyNotFound => 404,
            ApiError::Internal => 500,
        }
    }
}

} // verus!
