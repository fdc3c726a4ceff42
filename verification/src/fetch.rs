//! Answers to requests for files.

use vstd::prelude::*;

verus! {

/// Why a request failed.
#[derive(Clone, Debug, PartialEq, Eq)]
pub enum FetchError {
    /// The server answered with a status other than success.
    HttpError { code: u16, text: String },
    /// The request itself failed, with this message.
    Generic(String),
    Unknown(String),
}

/// Whether `code` is a status of success: 200 up to, not including, 300.
pub open spec fn is_success(code: u16) -> bool {
    200 <= code < 300
}

/// Lets an answer pass whose status is one of success. Any other status
/// is handed back as an error, with the text that came with it.
pub fn ensure_response_status_ok(code: u16, text: String) -> (checked: Result<(), FetchError>)
    ensures
        checked is Ok <==> is_success(code),
        checked is Err ==> checked == Err::<(), FetchError>(FetchError::HttpError { code, text }),
{
    if 200 <= code && code < 300 {
        Ok(())
    } else {
        Err(FetchError::HttpError { code, text })
    }
}

} // verus!
