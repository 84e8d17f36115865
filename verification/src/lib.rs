//! getter resolves ambiguous, human-typed source location strings (shorthand
//! repository references, relative filesystem paths, SCP-style SSH remotes,
//! or already-valid URLs) into canonical, protocol-tagged URL strings.
//!
//! The core is the detection pipeline: a forced-scheme parser, a
//! subdirectory extraction and composition algebra, an SCP-style SSH parser,
//! an ordered detector dispatch loop, and the concrete detectors (GitHub,
//! GitLab, Git SSH, BitBucket, local files). Detection that needs the
//! outside world (resolving a working directory on disk, asking BitBucket
//! which version control system backs a repository) is surfaced as an
//! explicit [`detector::Request`] that the caller answers before resuming
//! through [`detector::resume`], so the pipeline itself stays pure.

mod error;
pub use crate::error::{detector_error, Error, ErrorKind};

mod client_mode;
pub use crate::client_mode::ClientMode;

mod getter;
pub use crate::getter::HttpGetter;

pub mod strings;

mod urlw;

pub mod detector;
pub use crate::detector::{
    default_detectors, detect, resume, DetectState, Detector, Reply, Request, ScmLookup, Step,
};
