//! The home directory of the current user.

use vstd::prelude::*;
use crate::error::{kind_of, BridgeError, ErrorKind, ErrorView};

verus! {

/// `dirs::home_dir`, with the path it finds turned into text. Trusted, and
/// nothing is claimed of the answer: it depends on the environment of the
/// process and on the user database.
#[verifier::external_body]
fn find_home_dir() -> Option<String> {
    dirs::home_dir().map(|p| p.to_string_lossy().into_owned())
}

/// The answer to a request for the home directory, given what the search
/// for it found: the path as found, or a not-found error where there is
/// none.
pub fn home_dir_result(found: Option<String>) -> (r: Result<String, BridgeError>)
    ensures
        match found {
            Some(path) => r == Ok::<String, BridgeError>(path),
            None => r is Err && r->Err_0@ == ErrorView::HomeNotFound,
        },
        found is None ==> r is Err && kind_of(r->Err_0@) == ErrorKind::NotFound,
{
    match found {
        Some(path) => Ok(path),
        None => Err(BridgeError::HomeNotFound),
    }
}

/// The home directory of the current user. Whether one is found is for the
/// host to say; where none is, the error is the not-found error and no
/// other.
pub fn get_home_dir() -> (r: Result<String, BridgeError>)
    ensures
        r is Err ==> r->Err_0@ == ErrorView::HomeNotFound,
        r is Err ==> kind_of(r->Err_0@) == ErrorKind::NotFound,
{
    home_dir_result(find_home_dir())
}

} // verus!
