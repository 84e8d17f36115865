//! The local filesystem detector: an absolute path becomes a `file://` URL
//! at once; a relative path is appended to the caller's canonicalized
//! working directory and resolved lexically, eliding `.` and `..` segments
//! without touching the filesystem again, so that paths naming files that do
//! not exist yet stay nameable. Canonicalizing the working directory itself
//! (following symlinks) is the caller's affair: the dispatch loop raises a
//! request for it and the detector finishes from the answer.

use vstd::prelude::*;
use vstd::string::StrSliceExecFns;
use vstd::string::StringExecFns;

use crate::detector::{det_res_matches, SpecDetection};
use crate::error::{detector_error, Error};
use crate::strings::{concat, lemma_split_len, spec_split, split_char, str_eq};

verus! {

/// The `/`-separated segments of `s` that name a real step: empty segments
/// (repeated or trailing separators) and bare `.` segments vanish.
pub open spec fn keep_segs(segs: Seq<Seq<char>>) -> Seq<Seq<char>>
    decreases segs.len(),
{
    if segs.len() == 0 {
        Seq::<Seq<char>>::empty()
    } else if segs[0].len() > 0 && segs[0] != seq!['.'] {
        seq![segs[0]] + keep_segs(segs.skip(1))
    } else {
        keep_segs(segs.skip(1))
    }
}

/// Keeping one more segment appends it exactly when it names a real step.
pub proof fn lemma_keep_push(segs: Seq<Seq<char>>, x: Seq<char>)
    ensures
        keep_segs(segs.push(x)) == keep_segs(segs) + (if x.len() > 0 && x != seq!['.'] {
            seq![x]
        } else {
            Seq::<Seq<char>>::empty()
        }),
    decreases segs.len(),
{
    let tail: Seq<Seq<char>> = if x.len() > 0 && x != seq!['.'] {
        seq![x]
    } else {
        Seq::<Seq<char>>::empty()
    };
    if segs.len() == 0 {
        assert(segs.push(x)[0] == x);
        assert(segs.push(x).skip(1) =~= Seq::<Seq<char>>::empty());
        assert(keep_segs(Seq::<Seq<char>>::empty()) == Seq::<Seq<char>>::empty());
        assert(keep_segs(segs.push(x).skip(1)) == Seq::<Seq<char>>::empty());
        assert(keep_segs(segs) == Seq::<Seq<char>>::empty());
        if x.len() > 0 && x != seq!['.'] {
            assert(keep_segs(segs.push(x)) == seq![x] + keep_segs(segs.push(x).skip(1)));
            assert(seq![x] + Seq::<Seq<char>>::empty() =~= tail);
            assert(keep_segs(segs) + tail =~= tail);
        } else {
            assert(keep_segs(segs.push(x)) == keep_segs(segs.push(x).skip(1)));
            assert(keep_segs(segs) + tail =~= Seq::<Seq<char>>::empty());
        }
    } else {
        assert(segs.push(x)[0] == segs[0]);
        assert(segs.push(x).skip(1) =~= segs.skip(1).push(x));
        lemma_keep_push(segs.skip(1), x);
        assert(seq![segs[0]] + (keep_segs(segs.skip(1)) + tail) =~= (seq![segs[0]] + keep_segs(
            segs.skip(1),
        )) + tail);
    }
}

/// The components of a path string, in the manner of std's path iteration on
/// Unix: a leading `/` is the root component, empty and `.` segments vanish,
/// except that a leading `.` of a relative path is kept.
pub open spec fn spec_components(s: Seq<char>) -> Seq<Seq<char>> {
    let kept = keep_segs(spec_split(s, '/'));
    if s.len() > 0 && s[0] == '/' {
        seq![seq!['/']] + kept
    } else if spec_split(s, '/')[0] == seq!['.'] {
        seq![seq!['.']] + kept
    } else {
        kept
    }
}

/// Elide `.` and `..` segments the way the resolver walks components with
/// one segment of lookahead: a component followed by `..` vanishes together
/// with it, a component followed by `.` vanishes alone, any other component
/// is kept.
pub open spec fn spec_elide(comps: Seq<Seq<char>>) -> Seq<Seq<char>>
    decreases comps.len(),
{
    if comps.len() == 0 {
        Seq::<Seq<char>>::empty()
    } else if comps.len() == 1 {
        comps
    } else if comps[1] == seq!['.', '.'] {
        spec_elide(comps.skip(2))
    } else if comps[1] == seq!['.'] {
        spec_elide(comps.skip(1))
    } else {
        seq![comps[0]] + spec_elide(comps.skip(1))
    }
}

/// Append one path component to a path under construction, inserting a `/`
/// separator unless the path so far is empty or already ends in one.
pub open spec fn spec_push_one(acc: Seq<char>, c: Seq<char>) -> Seq<char> {
    if acc.len() == 0 {
        c
    } else if acc.last() == '/' {
        acc + c
    } else {
        acc + seq!['/'] + c
    }
}

/// The components rendered back into a path string, each pushed in turn.
pub open spec fn spec_join_components(comps: Seq<Seq<char>>) -> Seq<char>
    decreases comps.len(),
{
    if comps.len() == 0 {
        Seq::<char>::empty()
    } else {
        spec_push_one(spec_join_components(comps.drop_last()), comps.last())
    }
}

/// A path rendered as a `file://` URL: a third slash is added unless the
/// path brings its own leading one.
pub open spec fn spec_fmt_file_url(p: Seq<char>) -> Seq<char> {
    if p.len() > 0 && p[0] == '/' {
        "file://"@ + p
    } else {
        "file:///"@ + p
    }
}

/// A relative path resolved against a canonicalized working directory:
/// append it, walk the components eliding `.` and `..`, render the result as
/// a `file://` URL.
pub open spec fn spec_file_resolve(abs: Seq<char>, rel: Seq<char>) -> Seq<char> {
    spec_fmt_file_url(spec_join_components(spec_elide(spec_components(spec_push_one(abs, rel)))))
}

/// What the file detector decides without touching the filesystem: empty
/// input is no match, an absolute path is a `file://` URL at once, a
/// relative path without a working directory is an error, and a relative
/// path with one needs the canonicalized directory (`None`).
pub open spec fn spec_file_immediate(src: Seq<char>, pwd: Seq<char>) -> Option<SpecDetection> {
    if src.len() == 0 {
        Some(SpecDetection::NoMatch)
    } else if src[0] == '/' {
        Some(SpecDetection::Match(spec_fmt_file_url(src)))
    } else if pwd.len() == 0 {
        Some(SpecDetection::Fail("relative paths require a module with a pwd"@))
    } else {
        None
    }
}

/// What the file detector decides once the canonicalized working directory
/// (or the failure to canonicalize it) is in hand.
pub open spec fn spec_file_finish(src: Seq<char>, reply: Result<String, String>) -> SpecDetection {
    match reply {
        Err(e) => SpecDetection::Fail(e@),
        Ok(abs) => SpecDetection::Match(spec_file_resolve(abs@, src)),
    }
}

/// Split `s` into path components in the manner of std's path iteration.
fn components(s: &str) -> (r: Vec<String>)
    ensures
        r@.map_values(|t: String| t@) == spec_components(s@),
{
    let segs = split_char(s, '/');
    proof {
        lemma_split_len(s@, '/');
        reveal_strlit("/");
        reveal_strlit(".");
        assert("/"@ =~= seq!['/']);
        assert("."@ =~= seq!['.']);
    }
    let n = s.unicode_len();
    let mut comps: Vec<String> = Vec::new();
    if n > 0 && s.get_char(0) == '/' {
        comps.push(String::from_str("/"));
        proof {
            assert(comps@.map_values(|t: String| t@) =~= seq![seq!['/']]);
        }
    } else if str_eq(segs[0].as_str(), ".") {
        comps.push(String::from_str("."));
        proof {
            assert(comps@.map_values(|t: String| t@) =~= seq![seq!['.']]);
        }
    } else {
        proof {
            assert(comps@.map_values(|t: String| t@) =~= Seq::<Seq<char>>::empty());
        }
    }
    let ghost pre: Seq<Seq<char>> = comps@.map_values(|t: String| t@);
    let ghost all: Seq<Seq<char>> = segs@.map_values(|t: String| t@);
    let mut k: usize = 0;
    proof {
        assert(all.take(0) =~= Seq::<Seq<char>>::empty());
        assert(pre + keep_segs(all.take(0)) =~= pre);
    }
    while k < segs.len()
        invariant
            k <= segs@.len(),
            all == segs@.map_values(|t: String| t@),
            comps@.map_values(|t: String| t@) == pre + keep_segs(all.take(k as int)),
        decreases segs@.len() - k,
    {
        let sg_len = segs[k].as_str().unicode_len();
        let keep = sg_len > 0 && !str_eq(segs[k].as_str(), ".");
        proof {
            reveal_strlit(".");
            assert("."@ =~= seq!['.']);
            lemma_keep_push(all.take(k as int), all[k as int]);
            assert(all.take(k + 1) =~= all.take(k as int).push(all[k as int]));
        }
        if keep {
            let sg = segs[k].clone();
            comps.push(sg);
            proof {
                assert(comps@.map_values(|t: String| t@) =~= (pre + keep_segs(
                    all.take(k as int),
                )).push(all[k as int]));
                assert((pre + keep_segs(all.take(k as int))).push(all[k as int]) =~= pre + (
                keep_segs(all.take(k as int)) + seq![all[k as int]]));
            }
        } else {
            proof {
                assert(keep_segs(all.take(k as int)) + Seq::<Seq<char>>::empty() =~= keep_segs(
                    all.take(k as int),
                ));
            }
        }
        k = k + 1;
    }
    proof {
        assert(all.take(segs@.len() as int) =~= all);
    }
    comps
}

/// Walk the components with one segment of lookahead, eliding `.` and `..`.
fn elide(comps: &Vec<String>) -> (r: Vec<String>)
    ensures
        r@.map_values(|t: String| t@) == spec_elide(comps@.map_values(|t: String| t@)),
{
    let ghost all: Seq<Seq<char>> = comps@.map_values(|t: String| t@);
    let n = comps.len();
    let mut out: Vec<String> = Vec::new();
    let mut i: usize = 0;
    proof {
        reveal_strlit("..");
        reveal_strlit(".");
        assert(".."@ =~= seq!['.', '.']);
        assert("."@ =~= seq!['.']);
        assert(all.skip(0) =~= all);
        assert(out@.map_values(|t: String| t@) =~= Seq::<Seq<char>>::empty());
        assert(Seq::<Seq<char>>::empty() + spec_elide(all) =~= spec_elide(all));
    }
    while i < n
        invariant
            i <= n,
            n == comps@.len(),
            all == comps@.map_values(|t: String| t@),
            spec_elide(all) == out@.map_values(|t: String| t@) + spec_elide(all.skip(i as int)),
        decreases n - i,
    {
        proof {
            reveal_strlit("..");
            reveal_strlit(".");
            assert(".."@ =~= seq!['.', '.']);
            assert("."@ =~= seq!['.']);
            assert(all.skip(i as int)[0] == all[i as int]);
        }
        if i + 1 < n {
            proof {
                assert(all.skip(i as int)[1] == all[i + 1]);
            }
            if str_eq(comps[i + 1].as_str(), "..") {
                proof {
                    assert(all.skip(i as int).skip(2) =~= all.skip(i + 2));
                }
                i = i + 2;
            } else if str_eq(comps[i + 1].as_str(), ".") {
                proof {
                    assert(all.skip(i as int).skip(1) =~= all.skip(i + 1));
                }
                i = i + 1;
            } else {
                let c = comps[i].clone();
                out.push(c);
                proof {
                    assert(all.skip(i as int).skip(1) =~= all.skip(i + 1));
                    assert(out@.map_values(|t: String| t@) =~= (out@.map_values(|t: String| t@)
                        .drop_last()).push(all[i as int]));
                    assert((out@.map_values(|t: String| t@).drop_last()).push(all[i as int]) =~= (
                    out@.map_values(|t: String| t@).drop_last()) + seq![all[i as int]]);
                    assert((out@.map_values(|t: String| t@).drop_last() + seq![all[i as int]])
                        + spec_elide(all.skip(i + 1)) =~= out@.map_values(|t: String| t@)
                        .drop_last() + (seq![all[i as int]] + spec_elide(all.skip(i + 1))));
                }
                i = i + 1;
            }
        } else {
            let c = comps[i].clone();
            out.push(c);
            proof {
                assert(all.skip(i as int) =~= seq![all[i as int]]);
                assert(out@.map_values(|t: String| t@) =~= (out@.map_values(|t: String| t@)
                    .drop_last()) + seq![all[i as int]]);
                assert(all.skip(i + 1) =~= Seq::<Seq<char>>::empty());
                assert((out@.map_values(|t: String| t@).drop_last() + seq![all[i as int]])
                    + spec_elide(all.skip(i + 1)) =~= out@.map_values(|t: String| t@).drop_last()
                    + seq![all[i as int]]);
            }
            i = i + 1;
        }
    }
    proof {
        assert(all.skip(n as int) =~= Seq::<Seq<char>>::empty());
        assert(out@.map_values(|t: String| t@) + Seq::<Seq<char>>::empty() =~= out@.map_values(
            |t: String| t@,
        ));
    }
    out
}

/// Append one path component to a path under construction.
fn push_path(acc: &str, c: &str) -> (r: String)
    ensures
        r@ == spec_push_one(acc@, c@),
{
    let n = acc.unicode_len();
    if n == 0 {
        String::from_str(c)
    } else if acc.get_char(n - 1) == '/' {
        concat(acc, c)
    } else {
        let mut r = String::from_str(acc);
        r.append("/");
        r.append(c);
        proof {
            reveal_strlit("/");
            assert("/"@ =~= seq!['/']);
        }
        r
    }
}

/// Render the components back into a path string.
fn join_components(comps: &Vec<String>) -> (r: String)
    ensures
        r@ == spec_join_components(comps@.map_values(|t: String| t@)),
{
    let ghost all: Seq<Seq<char>> = comps@.map_values(|t: String| t@);
    let mut acc = String::new();
    let mut k: usize = 0;
    proof {
        assert(all.take(0) =~= Seq::<Seq<char>>::empty());
    }
    while k < comps.len()
        invariant
            k <= comps@.len(),
            all == comps@.map_values(|t: String| t@),
            acc@ == spec_join_components(all.take(k as int)),
        decreases comps@.len() - k,
    {
        acc = push_path(acc.as_str(), comps[k].as_str());
        proof {
            assert(all.take(k + 1).drop_last() =~= all.take(k as int));
            assert(all.take(k + 1).last() == all[k as int]);
        }
        k = k + 1;
    }
    proof {
        assert(all.take(comps@.len() as int) =~= all);
    }
    acc
}

/// Detects file paths and renders them as `file://` URLs.
#[derive(Clone, Copy, Debug)]
pub struct FileDetector;

impl FileDetector {
    /// Render a path as a `file://` URL, adding a third slash unless the
    /// path brings its own leading one.
    pub fn fmt_file_url(path: &str) -> (r: String)
        ensures
            r@ == spec_fmt_file_url(path@),
    {
        if path.unicode_len() > 0 && path.get_char(0) == '/' {
            concat("file://", path)
        } else {
            concat("file:///", path)
        }
    }

    /// Decide as much as possible without the filesystem: `None` means a
    /// relative path must wait for the canonicalized working directory.
    pub fn detect_immediate(&self, src: &str, pwd: &str) -> (r: Option<
        Result<(String, bool), Error>,
    >)
        ensures
            match (r, spec_file_immediate(src@, pwd@)) {
                (None, None) => true,
                (Some(x), Some(m)) => det_res_matches(x, m),
                _ => false,
            },
    {
        if src.unicode_len() == 0 {
            return Some(Ok((String::new(), false)));
        }
        if src.get_char(0) == '/' {
            return Some(Ok((FileDetector::fmt_file_url(src), true)));
        }
        if pwd.unicode_len() == 0 {
            return Some(
                Err(detector_error(String::from_str("relative paths require a module with a pwd"))),
            );
        }
        None
    }

    /// Finish a relative path from the canonicalized working directory, or
    /// turn the failure to canonicalize it into a detector error.
    pub fn finish(&self, src: &str, canonical_pwd: &Result<String, String>) -> (r: Result<
        (String, bool),
        Error,
    >)
        ensures
            det_res_matches(r, spec_file_finish(src@, *canonical_pwd)),
    {
        match canonical_pwd {
            Err(e) => Err(detector_error(e.clone())),
            Ok(abs) => {
                let combined = push_path(abs.as_str(), src);
                let comps = components(combined.as_str());
                let el = elide(&comps);
                let joined = join_components(&el);
                Ok((FileDetector::fmt_file_url(joined.as_str()), true))
            },
        }
    }
}

} // verus!
