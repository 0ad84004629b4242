//! Uniform ok/error payload for the outside command surface.

use vstd::prelude::*;

verus! {

use crate::error::Error;

/// The payload every boundary command answers with: success, or the
/// rendered message of the error that occurred.
#[derive(Debug, Clone)]
pub struct Response {
    pub ok: bool,
    pub error: Option<String>,
}

/// Commands answer `Ok` on success and `Err` on failure, both carrying a
/// `Response`.
pub type CommandResult = Result<Response, Response>;

impl Response {
    /// The successful answer.
    pub fn ok() -> (r: CommandResult)
        ensures
            r matches Ok(resp) && resp.ok && resp.error is None,
    {
        Ok(Response { ok: true, error: None })
    }

    /// The failed answer, carrying the error's rendered message.
    pub fn err(error: Error) -> (r: CommandResult)
        ensures
            r matches Err(resp) && !resp.ok && (resp.error matches Some(m) && m@
                == error.spec_message()),
    {
        Err(Response { ok: false, error: Some(error.message()) })
    }
}

} // verus!
