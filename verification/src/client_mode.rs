//! The download mode a client asks a retrieval capability for.

use vstd::prelude::*;

verus! {

/// The method of download a client will use for a resolved URL.
#[derive(Clone, Copy, Debug, PartialEq, Eq, Structural)]
pub enum ClientMode {
    /// No mode was chosen.
    Invalid,
    /// Download anything: a file is saved into the destination directory
    /// under the basename of the URL, a directory or archive is unpacked
    /// directly into it.
    Any,
    /// Download a single file; the destination is a file path.
    File,
    /// Download a directory tree; the destination is a directory path.
    Dir,
}

} // verus!
