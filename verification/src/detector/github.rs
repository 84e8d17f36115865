//! The GitHub detector: turns `github.com/owner/repo[...]` shorthand into a
//! URL the Git getter understands.

use vstd::prelude::*;
use vstd::string::StrSliceExecFns;

use crate::detector::hosted::{hosted_http, spec_hosted_http};
use crate::detector::{det_res_matches, SpecDetection};
use crate::error::Error;
use crate::strings::{is_prefix, is_prefix_of};

verus! {

/// What the GitHub detector decides about `src`: empty input or input not
/// beginning with `github.com/` is no match; otherwise the shared hosted-git
/// rewriting applies.
pub open spec fn spec_github_detect(src: Seq<char>) -> SpecDetection {
    if src.len() == 0 {
        SpecDetection::NoMatch
    } else if !is_prefix_of("github.com/"@, src) {
        SpecDetection::NoMatch
    } else {
        spec_hosted_http(src, "GitHub URLs should be github.com/username/repo"@)
    }
}

/// Detects GitHub URLs and turns them into URLs the Git getter can
/// understand.
#[derive(Clone, Copy, Debug)]
pub struct GitHubDetector;

impl GitHubDetector {
    /// Decide whether `src` is GitHub shorthand and, when it is, rewrite it;
    /// the working directory hint plays no part.
    pub fn detect(&self, src: &str, pwd: &str) -> (r: Result<(String, bool), Error>)
        ensures
            det_res_matches(r, spec_github_detect(src@)),
    {
        let _ = pwd;
        if src.unicode_len() == 0 {
            return Ok((String::new(), false));
        }
        if is_prefix(src, "github.com/") {
            return hosted_http(src, "GitHub URLs should be github.com/username/repo");
        }
        Ok((String::new(), false))
    }
}

} // verus!
