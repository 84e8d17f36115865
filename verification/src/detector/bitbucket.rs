//! The BitBucket detector: claims `bitbucket.org/owner/repo` shorthand, but
//! must ask BitBucket's repository-metadata endpoint whether the repository
//! is backed by Git or Mercurial before it can finish. The detector computes
//! the lookup URL and classifies the answer; issuing the HTTP request is the
//! caller's affair.

use vstd::prelude::*;
use vstd::string::StrSliceExecFns;
use vstd::string::StringExecFns;

use crate::detector::{det_res_matches, SpecDetection};
use crate::error::{detector_error, Error};
use crate::strings::{concat, is_prefix, is_prefix_of, is_suffix, is_suffix_of, str_eq};
use crate::urlw::{
    parse_norm, parse_path, set_path_str, url_err, url_norm, url_ok, url_path, url_with_path,
};

verus! {

/// The outcome of asking BitBucket's metadata endpoint about a repository:
/// the request was refused as unauthorized, or it named the backing version
/// control system, or it failed in transport or decoding.
pub enum ScmLookup {
    /// The endpoint answered with an authorization failure.
    Forbidden,
    /// The `scm` tag of the endpoint's answer.
    Scm(String),
    /// The request or the decoding of its answer failed, rendered as text.
    Failed(String),
}

/// What the BitBucket detector decides without the network: empty input or
/// input not beginning with `bitbucket.org/` is no match, input that does
/// not parse as a URL behind `https://` is an error, and anything else needs
/// the metadata lookup (`None`).
pub open spec fn spec_bitbucket_immediate(src: Seq<char>) -> Option<SpecDetection> {
    if src.len() == 0 {
        Some(SpecDetection::NoMatch)
    } else if !is_prefix_of("bitbucket.org/"@, src) {
        Some(SpecDetection::NoMatch)
    } else if !url_ok("https://"@ + src) {
        Some(SpecDetection::Fail(url_err("https://"@ + src)))
    } else {
        None
    }
}

/// The URL of the repository-metadata endpoint for a claimed source string.
pub open spec fn spec_lookup_url(src: Seq<char>) -> Seq<char> {
    "https://api.bitbucket.org/2.0/repositories"@ + url_path("https://"@ + src)
}

/// What the BitBucket detector decides once the lookup's outcome is in
/// hand: an authorization failure gets its own user-actionable error, a
/// transport or decoding failure is passed through, `git` yields a
/// `git`-forced URL with `.git` appended when absent, `hg` an `hg`-forced
/// one, and any other tag is an error naming it.
pub open spec fn spec_bitbucket_finish(src: Seq<char>, lookup: ScmLookup) -> SpecDetection {
    match lookup {
        ScmLookup::Forbidden => SpecDetection::Fail(
            "shorthand BitBucket URL can't be used for private repos, please use a full URL"@,
        ),
        ScmLookup::Failed(e) => SpecDetection::Fail(e@),
        ScmLookup::Scm(scm) => {
            let u = "https://"@ + src;
            if !url_ok(u) {
                SpecDetection::Fail(url_err(u))
            } else if scm@ == "git"@ {
                let p = url_path(u);
                if is_suffix_of(".git"@, p) {
                    SpecDetection::Match("git::"@ + url_norm(u))
                } else {
                    SpecDetection::Match("git::"@ + url_with_path(u, p + ".git"@))
                }
            } else if scm@ == "hg"@ {
                SpecDetection::Match("hg::"@ + url_norm(u))
            } else {
                SpecDetection::Fail("unknown BitBucket SCM type: "@ + scm@)
            }
        },
    }
}

/// The first phase of BitBucket detection: a finished decision, or the
/// metadata URL the caller must query.
pub enum BitBucketProbe {
    /// Detection finished without the network.
    Done(Result<(String, bool), Error>),
    /// Detection waits for the answer of a GET of this URL.
    Lookup(String),
}

/// Detects BitBucket URLs and turns them into URLs the Git or Hg getter can
/// understand, after a metadata lookup settles which one.
#[derive(Clone, Copy, Debug)]
pub struct BitBucketDetector;

impl BitBucketDetector {
    /// Decide as much as possible without the network; a claimed source
    /// string yields the metadata URL to query.
    pub fn probe(&self, src: &str) -> (r: BitBucketProbe)
        ensures
            match (r, spec_bitbucket_immediate(src@)) {
                (BitBucketProbe::Done(x), Some(m)) => det_res_matches(x, m),
                (BitBucketProbe::Lookup(u), None) => u@ == spec_lookup_url(src@),
                _ => false,
            },
    {
        if src.unicode_len() == 0 {
            return BitBucketProbe::Done(Ok((String::new(), false)));
        }
        if !is_prefix(src, "bitbucket.org/") {
            return BitBucketProbe::Done(Ok((String::new(), false)));
        }
        let u = concat("https://", src);
        match parse_path(u.as_str()) {
            Err(e) => BitBucketProbe::Done(Err(detector_error(e))),
            Ok(p) => BitBucketProbe::Lookup(
                concat("https://api.bitbucket.org/2.0/repositories", p.as_str()),
            ),
        }
    }

    /// Finish detection from the outcome of the metadata lookup.
    pub fn finish(&self, src: &str, lookup: &ScmLookup) -> (r: Result<(String, bool), Error>)
        ensures
            det_res_matches(r, spec_bitbucket_finish(src@, *lookup)),
    {
        match lookup {
            ScmLookup::Forbidden => Err(
                detector_error(
                    String::from_str(
                        "shorthand BitBucket URL can't be used for private repos, please use a full URL",
                    ),
                ),
            ),
            ScmLookup::Failed(e) => Err(detector_error(e.clone())),
            ScmLookup::Scm(scm) => {
                let u = concat("https://", src);
                let p = match parse_path(u.as_str()) {
                    Err(e) => {
                        return Err(detector_error(e));
                    },
                    Ok(p) => p,
                };
                if str_eq(scm.as_str(), "git") {
                    if is_suffix(p.as_str(), ".git") {
                        match parse_norm(u.as_str()) {
                            Ok(n) => Ok((concat("git::", n.as_str()), true)),
                            Err(e) => {
                                proof {
                                    assert(false);
                                }
                                Err(detector_error(e))
                            },
                        }
                    } else {
                        match set_path_str(u.as_str(), concat(p.as_str(), ".git").as_str()) {
                            Ok(s2) => Ok((concat("git::", s2.as_str()), true)),
                            Err(e) => {
                                proof {
                                    assert(false);
                                }
                                Err(detector_error(e))
                            },
                        }
                    }
                } else if str_eq(scm.as_str(), "hg") {
                    match parse_norm(u.as_str()) {
                        Ok(n) => Ok((concat("hg::", n.as_str()), true)),
                        Err(e) => {
                            proof {
                                assert(false);
                            }
                            Err(detector_error(e))
                        },
                    }
                } else {
                    Err(detector_error(concat("unknown BitBucket SCM type: ", scm.as_str())))
                }
            },
        }
    }
}

} // verus!
