//! The SCP-style SSH parser: turns `user@host:path` shorthand into a
//! structured URL string with scheme `ssh`. It performs no scheme-specific
//! policy (such as requiring the username `git`); that belongs to the
//! detector that consumes it.

use vstd::prelude::*;
use vstd::string::StrSliceExecFns;
use vstd::string::StringExecFns;

use crate::error::{detector_error, is_detector_error, Error};
use crate::strings::{concat, find_char_in, first_index, lemma_first_index_is, substr};
use crate::urlw::{
    set_path_str, set_query_str, set_username_str, url_err, url_ok, url_with_path, url_with_query,
    url_with_user,
};

verus! {

/// Match `s` against the host-and-path tail of the SCP pattern,
/// `([^:]+):/?(.+)$`: a non-empty host up to the first colon, then a path
/// from which one leading slash is dropped (unless the path is just `/`),
/// which must be non-empty and free of line breaks.
pub open spec fn spec_host_path(s: Seq<char>) -> Option<(Seq<char>, Seq<char>)> {
    let j = first_index(s, ':');
    if j == s.len() || j == 0 {
        None
    } else {
        let rest = s.skip(j + 1);
        if rest.len() == 0 || rest.contains('\n') {
            None
        } else {
            let path = if rest[0] == '/' && rest.len() > 1 {
                rest.skip(1)
            } else {
                rest
            };
            Some((s.take(j), path))
        }
    }
}

/// Match `s` against the SCP pattern `^(?:([^@]+)@)?([^:]+):/?(.+)$`: an
/// optional user up to the first `@`, then host and path. When the part
/// after the first `@` does not complete the pattern, the whole string is
/// retried without a user.
pub open spec fn spec_scp_split(s: Seq<char>) -> Option<(Seq<char>, Seq<char>, Seq<char>)> {
    let a = first_index(s, '@');
    if 1 <= a && a < s.len() && spec_host_path(s.skip(a + 1)) is Some {
        let hp = spec_host_path(s.skip(a + 1)).unwrap();
        Some((s.take(a), hp.0, hp.1))
    } else if spec_host_path(s) is Some {
        let hp = spec_host_path(s).unwrap();
        Some((Seq::<char>::empty(), hp.0, hp.1))
    } else {
        None
    }
}

/// What [`detect_ssh`] returns for `src`: no match, the serialization of the
/// built `ssh` URL, or a detector error message. The URL is built by parsing
/// `ssh://host`, setting the username, setting the path to the part of the
/// SCP path before any `?`, and setting the query to the part after it.
pub open spec fn spec_detect_ssh(src: Seq<char>) -> Result<Option<Seq<char>>, Seq<char>> {
    match spec_scp_split(src) {
        None => Ok(None),
        Some((user, host, path)) => {
            let base = "ssh://"@ + host;
            if !url_ok(base) {
                Err(url_err(base))
            } else {
                match url_with_user(base, user) {
                    None => Err("error setting username"@),
                    Some(s1) => {
                        let q = first_index(path, '?');
                        let s2 = url_with_path(s1, path.take(q));
                        if q == path.len() {
                            Ok(Some(s2))
                        } else {
                            Ok(Some(url_with_query(s2, path.skip(q + 1))))
                        }
                    },
                }
            }
        },
    }
}

/// The executable SSH-parse result agrees with the specified one.
pub open spec fn ssh_res_matches(
    r: Result<Option<String>, Error>,
    m: Result<Option<Seq<char>>, Seq<char>>,
) -> bool {
    match (r, m) {
        (Ok(None), Ok(None)) => true,
        (Ok(Some(u)), Ok(Some(v))) => u@ == v,
        (Err(e), Err(msg)) => is_detector_error(e, msg),
        _ => false,
    }
}

/// Match `s` against the host-and-path tail of the SCP pattern.
fn host_path(s: &str) -> (r: Option<(String, String)>)
    ensures
        match (r, spec_host_path(s@)) {
            (Some(p), Some(sp)) => p.0@ == sp.0 && p.1@ == sp.1,
            (None, None) => true,
            _ => false,
        },
{
    let n = s.unicode_len();
    let j = match find_char_in(s, ':', 0, n) {
        None => {
            proof {
                lemma_first_index_is(s@, ':', n as int);
            }
            return None;
        },
        Some(j) => {
            proof {
                lemma_first_index_is(s@, ':', j as int);
            }
            j
        },
    };
    if j == 0 {
        return None;
    }
    if j + 1 == n {
        proof {
            assert(s@.skip(j + 1).len() == 0);
        }
        return None;
    }
    match find_char_in(s, '\n', j + 1, n) {
        Some(i) => {
            proof {
                assert(s@.skip(j + 1)[i - j - 1] == '\n');
            }
            None
        },
        None => {
            proof {
                let rest = s@.skip(j + 1);
                if rest.contains('\n') {
                    let i = choose|i: int| 0 <= i < rest.len() && #[trigger] rest[i] == '\n';
                    assert(s@[i + j + 1] == '\n');
                }
            }
            let host = substr(s, 0, j);
            proof {
                assert(s@.take(j as int) =~= s@.subrange(0, j as int));
            }
            if s.get_char(j + 1) == '/' && n - (j + 1) > 1 {
                let path = substr(s, j + 2, n);
                proof {
                    assert(s@.skip(j + 1).skip(1) =~= s@.subrange(j + 2, n as int));
                }
                Some((host, path))
            } else {
                let path = substr(s, j + 1, n);
                proof {
                    assert(s@.skip(j + 1) =~= s@.subrange(j + 1, n as int));
                }
                Some((host, path))
            }
        },
    }
}

/// Match `src` against the whole SCP pattern, returning user (possibly
/// empty), host and path.
fn scp_split(src: &str) -> (r: Option<(String, String, String)>)
    ensures
        match (r, spec_scp_split(src@)) {
            (Some(p), Some(sp)) => p.0@ == sp.0 && p.1@ == sp.1 && p.2@ == sp.2,
            (None, None) => true,
            _ => false,
        },
{
    let n = src.unicode_len();
    match find_char_in(src, '@', 0, n) {
        Some(a) => {
            proof {
                lemma_first_index_is(src@, '@', a as int);
            }
            if a >= 1 {
                let rest = substr(src, a + 1, n);
                proof {
                    assert(rest@ =~= src@.skip(a + 1));
                }
                match host_path(rest.as_str()) {
                    Some((h, p)) => {
                        let user = substr(src, 0, a);
                        proof {
                            assert(src@.take(a as int) =~= src@.subrange(0, a as int));
                        }
                        return Some((user, h, p));
                    },
                    None => {},
                }
            }
        },
        None => {
            proof {
                lemma_first_index_is(src@, '@', n as int);
            }
        },
    }
    match host_path(src) {
        Some((h, p)) => Some((String::new(), h, p)),
        None => None,
    }
}

/// Determine whether `src` matches the SCP-style SSH shorthand and, when it
/// does, convert it into a structured URL string with scheme `ssh`. A
/// non-match is a normal outcome, not an error.
pub fn detect_ssh(src: &str) -> (r: Result<Option<String>, Error>)
    ensures
        ssh_res_matches(r, spec_detect_ssh(src@)),
        r matches Ok(Some(v)) ==> url_ok(v@),
{
    let (user, host, path) = match scp_split(src) {
        None => {
            return Ok(None);
        },
        Some(t) => t,
    };
    let base = concat("ssh://", host.as_str());
    let s1 = match set_username_str(base.as_str(), user.as_str()) {
        Err(Some(e)) => {
            return Err(detector_error(e));
        },
        Err(None) => {
            return Err(detector_error(String::from_str("error setting username")));
        },
        Ok(s1) => s1,
    };
    let pn = path.as_str().unicode_len();
    let q = match find_char_in(path.as_str(), '?', 0, pn) {
        Some(q) => {
            proof {
                lemma_first_index_is(path@, '?', q as int);
            }
            q
        },
        None => {
            proof {
                lemma_first_index_is(path@, '?', pn as int);
            }
            pn
        },
    };
    let before = substr(path.as_str(), 0, q);
    proof {
        assert(path@.take(q as int) =~= path@.subrange(0, q as int));
    }
    let s2 = match set_path_str(s1.as_str(), before.as_str()) {
        Ok(v) => v,
        Err(e) => {
            proof {
                assert(false);
            }
            return Err(detector_error(e));
        },
    };
    if q < pn {
        let query = substr(path.as_str(), q + 1, pn);
        proof {
            assert(path@.skip(q + 1) =~= path@.subrange(q + 1, pn as int));
        }
        match set_query_str(s2.as_str(), query.as_str()) {
            Ok(v) => Ok(Some(v)),
            Err(e) => {
                proof {
                    assert(false);
                }
                Err(detector_error(e))
            },
        }
    } else {
        Ok(Some(s2))
    }
}

} // verus!
