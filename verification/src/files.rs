//! Reading and writing a whole file as text: what the user interface is told
//! once the operating system has answered.

use vstd::prelude::*;
use crate::error::{kind_of, BridgeError, ErrorKind, ErrorView};

verus! {

/// The answer to a request for a file's content. `read` is what the
/// operating system gave: the whole content, or its reason for failing. The
/// content is handed on unchanged, whatever it holds; a failure becomes a
/// read error that carries the reason.
pub fn read_file_content(read: Result<String, String>) -> (r: Result<String, BridgeError>)
    ensures
        match read {
            Ok(content) => r == Ok::<String, BridgeError>(content),
            Err(cause) => r is Err && r->Err_0@ == (ErrorView::FileUnreadable { cause: cause@ }),
        },
        read is Err ==> r is Err && kind_of(r->Err_0@) == ErrorKind::ReadError,
{
    match read {
        Ok(content) => Ok(content),
        Err(cause) => Err(BridgeError::FileUnreadable { cause }),
    }
}

/// The answer to a request to replace a file's content. `written` is what
/// the operating system gave: nothing, or its reason for failing. A failure
/// becomes a write error that carries the reason.
pub fn write_file_content(written: Result<(), String>) -> (r: Result<(), BridgeError>)
    ensures
        match written {
            Ok(_) => r is Ok,
            Err(cause) => r is Err && r->Err_0@ == (ErrorView::FileUnwritable { cause: cause@ }),
        },
        written is Err ==> r is Err && kind_of(r->Err_0@) == ErrorKind::WriteError,
{
    match written {
        Ok(_) => Ok(()),
        Err(cause) => Err(BridgeError::FileUnwritable { cause }),
    }
}

} // verus!
