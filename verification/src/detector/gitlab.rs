//! The GitLab detector: turns `gitlab.com/owner/repo[...]` shorthand into a
//! URL the Git getter understands.

use vstd::prelude::*;
use vstd::string::StrSliceExecFns;

use crate::detector::hosted::{hosted_http, spec_hosted_http};
use crate::detector::{det_res_matches, SpecDetection};
use crate::error::Error;
use crate::strings::{is_prefix, is_prefix_of};

verus! {

/// What the GitLab detector decides about `src`: empty input or input not
/// beginning with `gitlab.com/` is no match; otherwise the shared hosted-git
/// rewriting applies.
pub open spec fn spec_gitlab_detect(src: Seq<char>) -> SpecDetection {
    if src.len() == 0 {
        SpecDetection::NoMatch
    } else if !is_prefix_of("gitlab.com/"@, src) {
        SpecDetection::NoMatch
    } else {
        spec_hosted_http(src, "GitHub URLs should be gitlab.com/username/repo"@)
    }
}

/// Detects GitLab URLs and turns them into URLs the Git getter can
/// understand.
#[derive(Clone, Copy, Debug)]
pub struct GitLabDetector;

impl GitLabDetector {
    /// Decide whether `src` is GitLab shorthand and, when it is, rewrite it;
    /// the working directory hint plays no part.
    pub fn detect(&self, src: &str, pwd: &str) -> (r: Result<(String, bool), Error>)
        ensures
            det_res_matches(r, spec_gitlab_detect(src@)),
    {
        let _ = pwd;
        if src.unicode_len() == 0 {
            return Ok((String::new(), false));
        }
        if is_prefix(src, "gitlab.com/") {
            return hosted_http(src, "GitHub URLs should be gitlab.com/username/repo");
        }
        Ok((String::new(), false))
    }
}

} // verus!
