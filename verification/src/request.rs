//! How a download can fail.

use vstd::prelude::*;
use vstd::string::*;

verus! {

/// The status that a server gives for something it does not have.
pub const NOT_FOUND: u16 = 404;

/// Why a download failed.
pub enum RequestError {
    /// The server answered, with a status that is not a success.
    DownloadError { code: u16, url: String },
    /// No answer could be had or read: the transport's own account of it.
    Transport(String),
}

impl RequestError {
    /// Whether the server said that it does not have what was asked for.
    pub open spec fn not_found(&self) -> bool {
        self matches RequestError::DownloadError { code, .. } && code == NOT_FOUND
    }

    /// Whether the server said that it does not have what was asked for.
    pub fn is_not_found(&self) -> (r: bool)
        ensures
            r == self.not_found(),
    {
        match self {
            RequestError::DownloadError { code, .. } => *code == NOT_FOUND,
            RequestError::Transport(_) => false,
        }
    }
}

/// What a server's status means for a download: success for 200 to 299,
/// and the failure that tells "not found" apart otherwise.
pub fn check_status(code: u16, url: &str) -> (r: Result<(), RequestError>)
    ensures
        200 <= code < 300 ==> r is Ok,
        !(200 <= code < 300) ==> (r matches Err(RequestError::DownloadError { code: c, url: u })
            && c == code && u@ == url@),
        r matches Err(e) ==> (e.not_found() <==> code == NOT_FOUND),
{
    if 200 <= code && code < 300 {
        Ok(())
    } else {
        Err(RequestError::DownloadError { code, url: String::from_str(url) })
    }
}

} // verus!
