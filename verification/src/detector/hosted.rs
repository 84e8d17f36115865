//! The rewriting algorithm shared by the hosted-git detectors (GitHub,
//! GitLab): split the source on `/`, demand at least host, owner and
//! repository, build `https://host/owner/repo`, append `.git` to the path
//! when absent, and carry any remaining segments as an embedded `//subdir`.

use vstd::prelude::*;
use vstd::string::StrSliceExecFns;
use vstd::string::StringExecFns;

use crate::detector::{det_res_matches, SpecDetection};
use crate::error::{detector_error, Error};
use crate::strings::{concat, is_suffix, is_suffix_of, join_slash, spec_join, spec_split, split_char};
use crate::urlw::{parse_norm, parse_path, set_path_str, url_err, url_norm, url_ok, url_path, url_with_path};

verus! {

/// What a hosted-git detector produces for a claimed `src`: an error with
/// `err` when `src` has fewer than three `/`-separated segments, an error
/// with the parse failure when `https://` + the first three segments is no
/// URL, and otherwise that URL with `.git` appended to its path when absent
/// and any remaining segments embedded as `//subdir`, forced to `git`.
pub open spec fn spec_hosted_http(src: Seq<char>, err: Seq<char>) -> SpecDetection {
    let parts = spec_split(src, '/');
    if parts.len() < 3 {
        SpecDetection::Fail(err)
    } else {
        let base = "https://"@ + spec_join(parts.take(3), '/');
        if !url_ok(base) {
            SpecDetection::Fail(url_err(base))
        } else {
            let p0 = url_path(base);
            let s1 = if is_suffix_of(".git"@, p0) {
                url_norm(base)
            } else {
                url_with_path(base, p0 + ".git"@)
            };
            if parts.len() == 3 {
                SpecDetection::Match("git::"@ + s1)
            } else {
                SpecDetection::Match(
                    "git::"@ + url_with_path(
                        s1,
                        url_path(s1) + "//"@ + spec_join(parts.skip(3), '/'),
                    ),
                )
            }
        }
    }
}

/// Rewrite a claimed hosted-git source string, reporting `errmsg` when it
/// has fewer than three segments.
pub fn hosted_http(src: &str, errmsg: &str) -> (r: Result<(String, bool), Error>)
    ensures
        det_res_matches(r, spec_hosted_http(src@, errmsg@)),
{
    let parts = split_char(src, '/');
    let np = parts.len();
    proof {
        assert(parts@.map_values(|t: String| t@).len() == np);
    }
    if np < 3 {
        return Err(detector_error(String::from_str(errmsg)));
    }
    let joined = join_slash(&parts, 0, 3);
    proof {
        assert(parts@.subrange(0, 3).map_values(|t: String| t@) =~= parts@.map_values(
            |t: String| t@,
        ).take(3));
    }
    let base = concat("https://", joined.as_str());
    let p0 = match parse_path(base.as_str()) {
        Err(e) => {
            return Err(detector_error(e));
        },
        Ok(v) => v,
    };
    let s1 = if is_suffix(p0.as_str(), ".git") {
        match parse_norm(base.as_str()) {
            Ok(v) => v,
            Err(e) => {
                proof {
                    assert(false);
                }
                return Err(detector_error(e));
            },
        }
    } else {
        match set_path_str(base.as_str(), concat(p0.as_str(), ".git").as_str()) {
            Ok(v) => v,
            Err(e) => {
                proof {
                    assert(false);
                }
                return Err(detector_error(e));
            },
        }
    };
    if np == 3 {
        return Ok((concat("git::", s1.as_str()), true));
    }
    let extra = join_slash(&parts, 3, np);
    proof {
        assert(parts@.subrange(3, np as int).map_values(|t: String| t@) =~= parts@.map_values(
            |t: String| t@,
        ).skip(3));
    }
    let p1 = match parse_path(s1.as_str()) {
        Ok(v) => v,
        Err(e) => {
            proof {
                assert(false);
            }
            return Err(detector_error(e));
        },
    };
    let mut newp = p1;
    newp.append("//");
    newp.append(extra.as_str());
    let s2 = match set_path_str(s1.as_str(), newp.as_str()) {
        Ok(v) => v,
        Err(e) => {
            proof {
                assert(false);
            }
            return Err(detector_error(e));
        },
    };
    Ok((concat("git::", s2.as_str()), true))
}

} // verus!
