//! The part of the HTTP retrieval capability that decides things rather than
//! moving bytes: choosing a download mode from the shape of a URL.

use vstd::prelude::*;
use vstd::string::StrSliceExecFns;

use crate::client_mode::ClientMode;
use crate::error::Error;

verus! {

/// The download mode the HTTP getter chooses for `url`: a URL ending in a
/// slash names a directory tree, any other names a single file.
pub open spec fn spec_http_client_mode(url: Seq<char>) -> ClientMode {
    if url.len() > 0 && url.last() == '/' {
        ClientMode::Dir
    } else {
        ClientMode::File
    }
}

/// The getter for `http` and `https` URLs. Only its mode decision lives
/// here; the transfer itself is the caller's affair.
#[derive(Clone, Copy, Debug)]
pub struct HttpGetter;

impl HttpGetter {
    /// Choose the download mode for `url` from its shape alone.
    pub fn client_mode(&self, url: &str) -> (r: Result<ClientMode, Error>)
        ensures
            r matches Ok(m) && m == spec_http_client_mode(url@),
    {
        let n = url.unicode_len();
        if n > 0 && url.get_char(n - 1) == '/' {
            Ok(ClientMode::Dir)
        } else {
            Ok(ClientMode::File)
        }
    }
}

} // verus!
