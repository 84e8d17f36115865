//! The Git SSH detector: recognizes SCP-style remotes such as
//! `git@host.com:dir1/dir2` and converts them to proper `ssh` URLs, forced
//! to the `git` scheme.

use vstd::prelude::*;
use vstd::string::StrSliceExecFns;

use crate::detector::ssh::{detect_ssh, spec_detect_ssh};
use crate::detector::{det_res_matches, SpecDetection};
use crate::error::Error;
use crate::strings::{concat, str_eq};
use crate::urlw::{parse_username, url_username};

verus! {

/// What the Git SSH detector decides about `src`: empty input and
/// non-SCP-shaped input are no match; an SCP match whose URL does not carry
/// the username `git` is treated as "not a git remote" (no match, not an
/// error); otherwise the built `ssh` URL is returned forced to `git`.
pub open spec fn spec_git_detect(src: Seq<char>) -> SpecDetection {
    if src.len() == 0 {
        SpecDetection::NoMatch
    } else {
        match spec_detect_ssh(src) {
            Err(m) => SpecDetection::Fail(m),
            Ok(None) => SpecDetection::NoMatch,
            Ok(Some(u)) => if url_username(u) == "git"@ {
                SpecDetection::Match("git::"@ + u)
            } else {
                SpecDetection::NoMatch
            },
        }
    }
}

/// Detects Git SSH URLs such as `git@host.com:dir1/dir2` and converts them
/// to proper URLs.
#[derive(Clone, Copy, Debug)]
pub struct GitDetector;

impl GitDetector {
    /// Decide whether `src` is an SCP-style git remote and, when it is,
    /// rewrite it; the working directory hint plays no part.
    pub fn detect(&self, src: &str, pwd: &str) -> (r: Result<(String, bool), Error>)
        ensures
            det_res_matches(r, spec_git_detect(src@)),
    {
        let _ = pwd;
        if src.unicode_len() == 0 {
            return Ok((String::new(), false));
        }
        let u = match detect_ssh(src) {
            Err(e) => {
                return Err(e);
            },
            Ok(None) => {
                return Ok((String::new(), false));
            },
            Ok(Some(u)) => u,
        };
        let uname = match parse_username(u.as_str()) {
            Ok(v) => v,
            Err(e) => {
                proof {
                    assert(false);
                }
                return Err(crate::error::detector_error(e));
            },
        };
        if str_eq(uname.as_str(), "git") {
            Ok((concat("git::", u.as_str()), true))
        } else {
            Ok((String::new(), false))
        }
    }
}

} // verus!
