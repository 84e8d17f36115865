//! The detection pipeline: the forced-scheme parser, the subdirectory
//! extraction and composition algebra, the ordered detector dispatch loop,
//! and the requests the loop raises when a detector needs the outside world.

use vstd::prelude::*;
use vstd::string::StrSliceExecFns;
use vstd::string::StringExecFns;

use crate::strings::{
    find_char_in, find_sub_in, first_index, is_alnum, is_prefix_of, lemma_first_index_is,
    occurs_at, spec_is_alnum, substr,
};
use crate::urlw::{url_err, url_ok, url_path, url_scheme, url_with_path};

pub mod bitbucket;
pub mod file;
pub mod git;
pub mod github;
pub mod gitlab;
pub mod hosted;
pub mod ssh;

pub use self::bitbucket::{BitBucketDetector, ScmLookup};
pub use self::file::FileDetector;
pub use self::git::GitDetector;
pub use self::github::GitHubDetector;
pub use self::gitlab::GitLabDetector;

verus! {

/// What one detector decides about a source string: it does not recognize
/// it, it rewrites it to a URL string, or it recognizes it as malformed and
/// fails the whole call with a detector error message.
pub enum SpecDetection {
    /// The detector does not recognize the input; the next one is tried.
    NoMatch,
    /// The detector rewrote the input to this string.
    Match(Seq<char>),
    /// The detector recognized the input but found it malformed; the whole
    /// call fails with this message.
    Fail(Seq<char>),
}

/// The executable detection result `r` — the `(string, matched)` pair or an
/// error — agrees with the specified outcome `m`.
pub open spec fn det_res_matches(r: Result<(String, bool), crate::error::Error>, m: SpecDetection) -> bool {
    match (r, m) {
        (Ok(p), SpecDetection::NoMatch) => p.0@ == Seq::<char>::empty() && p.1 == false,
        (Ok(p), SpecDetection::Match(u)) => p.0@ == u && p.1 == true,
        (Err(e), SpecDetection::Fail(msg)) => crate::error::is_detector_error(e, msg),
        _ => false,
    }
}

/// The length of the longest leading run of ASCII alphanumeric characters.
pub open spec fn alnum_run(s: Seq<char>) -> int
    decreases s.len(),
{
    if s.len() == 0 || !spec_is_alnum(s[0]) {
        0
    } else {
        1 + alnum_run(s.skip(1))
    }
}

/// What [`alnum_run`] returns: an index within bounds, with alphanumeric
/// characters before it and, when in range, a non-alphanumeric one at it.
pub proof fn lemma_alnum_run(s: Seq<char>)
    ensures
        0 <= alnum_run(s) <= s.len(),
        alnum_run(s) < s.len() ==> !spec_is_alnum(s[alnum_run(s)]),
        forall|j: int| 0 <= j < alnum_run(s) ==> spec_is_alnum(s[j]),
    decreases s.len(),
{
    if s.len() > 0 && spec_is_alnum(s[0]) {
        lemma_alnum_run(s.skip(1));
        assert forall|j: int| 0 <= j < alnum_run(s) implies spec_is_alnum(s[j]) by {
            if j > 0 {
                assert(s.skip(1)[j - 1] == s[j]);
            }
        }
    }
}

/// [`alnum_run`] computed from a witness.
pub proof fn lemma_alnum_run_is(s: Seq<char>, k: int)
    requires
        0 <= k <= s.len(),
        forall|j: int| 0 <= j < k ==> spec_is_alnum(s[j]),
        k < s.len() ==> !spec_is_alnum(s[k]),
    ensures
        alnum_run(s) == k,
    decreases s.len(),
{
    if s.len() > 0 && spec_is_alnum(s[0]) {
        assert forall|j: int| 0 <= j < k - 1 implies spec_is_alnum(s.skip(1)[j]) by {
            assert(s.skip(1)[j] == s[j + 1]);
        }
        if k >= 1 && k - 1 < s.skip(1).len() {
            assert(s.skip(1)[k - 1] == s[k]);
        }
        lemma_alnum_run_is(s.skip(1), k - 1);
    }
}

/// Whether `s` carries a forced-scheme prefix: a non-empty alphanumeric
/// token, a literal `::`, and a non-empty remainder free of line breaks.
pub open spec fn spec_forced_matches(s: Seq<char>) -> bool {
    let k = alnum_run(s);
    &&& k >= 1
    &&& k + 2 < s.len()
    &&& s[k] == ':'
    &&& s[k + 1] == ':'
    &&& !s.skip(k + 2).contains('\n')
}

/// Split an optional `scheme::` prefix off `s`: the forced scheme and the
/// remainder. When no prefix matches, the scheme is empty and the remainder
/// is `s` unchanged.
pub open spec fn spec_forced_split(s: Seq<char>) -> (Seq<char>, Seq<char>) {
    if spec_forced_matches(s) {
        (s.take(alnum_run(s)), s.skip(alnum_run(s) + 2))
    } else {
        (Seq::<char>::empty(), s)
    }
}

/// Split an optional `scheme::` prefix off `src`, returning the forced
/// scheme (empty when there is none) and the remainder.
pub fn get_forced_getter(src: &str) -> (r: (String, String))
    ensures
        (r.0@, r.1@) == spec_forced_split(src@),
{
    let n = src.unicode_len();
    let mut k: usize = 0;
    while k < n && is_alnum(src.get_char(k))
        invariant
            0 <= k <= n,
            n == src@.len(),
            forall|j: int| 0 <= j < k ==> spec_is_alnum(src@[j]),
        decreases n - k,
    {
        k = k + 1;
    }
    proof {
        lemma_alnum_run_is(src@, k as int);
    }
    if k >= 1 && n >= 3 && k < n - 2 && src.get_char(k) == ':' && src.get_char(k + 1) == ':' {
        match find_char_in(src, '\n', k + 2, n) {
            Some(_) => {
                proof {
                    assert(src@.skip(k + 2).contains('\n')) by {
                        let i = choose|i: int|
                            k + 2 <= i < n && src@[i] == '\n' && forall|j: int|
                                k + 2 <= j < i ==> src@[j] != '\n';
                        assert(src@.skip(k + 2)[i - k - 2] == '\n');
                    }
                }
            },
            None => {
                proof {
                    if src@.skip(k + 2).contains('\n') {
                        let i = choose|i: int|
                            0 <= i < src@.skip(k + 2).len() && #[trigger] src@.skip(k + 2)[i]
                                == '\n';
                        assert(src@[i + k + 2] == '\n');
                    }
                }
                return (substr(src, 0, k), substr(src, k + 2, n));
            },
        }
    }
    (String::new(), String::from_str(src))
}

/// The index of the first occurrence of `p` in `s` that begins at or after
/// `from` and ends at or before `to`, or `-1` when there is none.
pub open spec fn first_sub_at(s: Seq<char>, p: Seq<char>, from: int, to: int) -> int
    decreases to - from,
{
    if p.len() == 0 || from < 0 || from + p.len() > to {
        -1
    } else if occurs_at(s, p, from) {
        from
    } else {
        first_sub_at(s, p, from + 1, to)
    }
}

/// [`first_sub_at`] computed from a witness: `found` of `Some(i)` is the
/// first occurrence within range, `None` means there is none.
pub proof fn lemma_first_sub_at_is(
    s: Seq<char>,
    p: Seq<char>,
    from: int,
    to: int,
    found: Option<int>,
)
    requires
        p.len() >= 1,
        0 <= from,
        to <= s.len(),
        match found {
            Some(i) => {
                &&& from <= i
                &&& i + p.len() <= to
                &&& occurs_at(s, p, i)
                &&& forall|j: int| from <= j < i ==> !(occurs_at(s, p, j) && j + p.len() <= to)
            },
            None => forall|j: int| from <= j ==> !(occurs_at(s, p, j) && j + p.len() <= to),
        },
    ensures
        match found {
            Some(i) => first_sub_at(s, p, from, to) == i,
            None => first_sub_at(s, p, from, to) == -1,
        },
    decreases to - from,
{
    match found {
        Some(i) => {
            if from + p.len() > to {
                assert(false);
            } else if occurs_at(s, p, from) {
                assert(i == from);
            } else {
                lemma_first_sub_at_is(s, p, from + 1, to, found);
            }
        },
        None => {
            if from + p.len() <= to {
                assert(!occurs_at(s, p, from));
                lemma_first_sub_at_is(s, p, from + 1, to, found);
            }
        },
    }
}

/// Split an optional `//subdir` marker off `s`, per the subdir
/// mini-language: the query region (from the first `?` on) is never
/// scanned, a scheme's `://` never counts as a marker, and a `?` inside the
/// extracted subdir is hoisted back onto the base.
pub open spec fn spec_subdir_split(s: Seq<char>) -> (Seq<char>, Seq<char>) {
    let stop = first_index(s, '?');
    let idx3 = first_sub_at(s, seq![':', '/', '/'], 0, stop);
    let offset = if idx3 >= 0 {
        idx3 + 3
    } else {
        0
    };
    let i = first_sub_at(s, seq!['/', '/'], offset, stop);
    if i < 0 {
        (s, Seq::<char>::empty())
    } else {
        let subdir = s.skip(i + 2);
        let q = first_index(subdir, '?');
        if q == subdir.len() {
            (s.take(i), subdir)
        } else {
            (s.take(i) + subdir.skip(q), subdir.take(q))
        }
    }
}

/// Split an optional `//subdir` marker off `src` and return the base and
/// the subdir (empty when there is none). A query string on the subdir is
/// hoisted onto the base.
pub fn source_dir_subdir(src: &str) -> (r: (String, String))
    ensures
        (r.0@, r.1@) == spec_subdir_split(src@),
{
    let n = src.unicode_len();
    let stop = match find_char_in(src, '?', 0, n) {
        Some(i) => {
            proof {
                lemma_first_index_is(src@, '?', i as int);
            }
            i
        },
        None => {
            proof {
                lemma_first_index_is(src@, '?', n as int);
            }
            n
        },
    };
    proof {
        reveal_strlit("://");
        assert("://"@ =~= seq![':', '/', '/']);
        reveal_strlit("//");
        assert("//"@ =~= seq!['/', '/']);
    }
    let offset = match find_sub_in(src, "://", 0, stop) {
        Some(i) => {
            proof {
                lemma_first_sub_at_is(src@, seq![':', '/', '/'], 0, stop as int, Some(i as int));
            }
            i + 3
        },
        None => {
            proof {
                lemma_first_sub_at_is(src@, seq![':', '/', '/'], 0, stop as int, None);
            }
            0
        },
    };
    let i = match find_sub_in(src, "//", offset, stop) {
        Some(i) => {
            proof {
                lemma_first_sub_at_is(
                    src@,
                    seq!['/', '/'],
                    offset as int,
                    stop as int,
                    Some(i as int),
                );
            }
            i
        },
        None => {
            proof {
                lemma_first_sub_at_is(src@, seq!['/', '/'], offset as int, stop as int, None);
            }
            return (String::from_str(src), String::new());
        },
    };
    let subdir = substr(src, i + 2, n);
    let sn = subdir.as_str().unicode_len();
    match find_char_in(subdir.as_str(), '?', 0, sn) {
        Some(q) => {
            proof {
                lemma_first_index_is(subdir@, '?', q as int);
            }
            let mut base = substr(src, 0, i);
            base.append(subdir.as_str().substring_char(q, sn));
            proof {
                assert(subdir@.skip(q as int) =~= subdir@.subrange(q as int, sn as int));
            }
            (base, substr(subdir.as_str(), 0, q))
        },
        None => {
            proof {
                lemma_first_index_is(subdir@, '?', sn as int);
            }
            (substr(src, 0, i), subdir)
        },
    }
}

/// Compose a detector-produced subdir (the outer directory) with a
/// caller-level subdir (nested inside it): empty operands pass through,
/// otherwise `outer/inner`.
pub open spec fn spec_subdir_join(outer: Seq<char>, inner: Seq<char>) -> Seq<char> {
    if outer.len() == 0 {
        inner
    } else if inner.len() == 0 {
        outer
    } else {
        outer + seq!['/'] + inner
    }
}

/// Compose an outer and an inner subdir; empty operands pass through.
pub fn subdir_join(outer: &str, inner: &str) -> (r: String)
    ensures
        r@ == spec_subdir_join(outer@, inner@),
{
    if outer.unicode_len() == 0 {
        return String::from_str(inner);
    }
    if inner.unicode_len() == 0 {
        return String::from_str(outer);
    }
    let mut r = String::from_str(outer);
    r.append("/");
    r.append(inner);
    proof {
        reveal_strlit("/");
        assert("/"@ =~= seq!['/']);
    }
    r
}

/// One detector of the registry: a stateless rule that recognizes a
/// source-string shape and rewrites it to a canonical URL.
#[derive(Clone, Copy, Debug, PartialEq, Eq, Structural)]
pub enum Detector {
    /// `github.com/owner/repo` shorthand.
    GitHub,
    /// `gitlab.com/owner/repo` shorthand.
    GitLab,
    /// SCP-style `git@host:path` remotes.
    Git,
    /// `bitbucket.org/owner/repo` shorthand, settled by a metadata lookup.
    BitBucket,
    /// Local filesystem paths.
    File,
}

/// The default detector ordering: hosted-git detectors by name first, the
/// local filesystem detector last.
pub fn default_detectors() -> (r: Vec<Detector>)
    ensures
        r@ == seq![
            Detector::GitHub,
            Detector::GitLab,
            Detector::Git,
            Detector::BitBucket,
            Detector::File,
        ],
{
    let mut r: Vec<Detector> = Vec::new();
    r.push(Detector::GitHub);
    r.push(Detector::GitLab);
    r.push(Detector::Git);
    r.push(Detector::BitBucket);
    r.push(Detector::File);
    proof {
        assert(r@ =~= seq![
            Detector::GitHub,
            Detector::GitLab,
            Detector::Git,
            Detector::BitBucket,
            Detector::File,
        ]);
    }
    r
}

/// Outside work a suspended detection waits for.
pub enum Request {
    /// Resolve this working directory through the filesystem (following
    /// symlinks) to an absolute form.
    CanonicalizePwd(String),
    /// Perform a GET of this repository-metadata URL and classify the
    /// answer.
    RepoScmLookup(String),
}

/// The answer to a [`Request`], handed back through [`resume`].
pub enum Reply {
    /// The canonicalized working directory, or the failure rendered as text.
    CanonicalPwd(Result<String, String>),
    /// The outcome of the repository-metadata lookup.
    RepoScm(crate::detector::bitbucket::ScmLookup),
}

/// A suspended detection: everything the dispatch loop needs to go on once
/// the caller answers the pending request.
pub struct DetectState {
    /// The original source string, quoted verbatim by the exhaustion error
    /// and returned verbatim by the short-circuit.
    pub src: String,
    /// The caller-level forced scheme, empty when there is none.
    pub forced: String,
    /// The caller-level subdir, empty when there is none.
    pub subdir: String,
    /// The source string with forced scheme and subdir stripped; what the
    /// detectors see.
    pub body: String,
    /// The working directory hint.
    pub pwd: String,
    /// The ordered detector registry of this call.
    pub detectors: Vec<Detector>,
    /// The index of the detector after the suspended one.
    pub next: usize,
}

/// One step of detection: finished with a result, or suspended on a request
/// the caller must answer before resuming.
pub enum Step {
    /// Detection finished.
    Done(Result<String, crate::error::Error>),
    /// Detection waits for the answer to the request.
    Pending(Request, DetectState),
}

/// The pipeline state a detection step is specified over.
pub struct SpecCtx {
    /// The original source string.
    pub src: Seq<char>,
    /// The caller-level forced scheme.
    pub forced: Seq<char>,
    /// The caller-level subdir.
    pub subdir: Seq<char>,
    /// The stripped body the detectors see.
    pub body: Seq<char>,
    /// The working directory hint.
    pub pwd: Seq<char>,
    /// The ordered detector registry.
    pub detectors: Seq<Detector>,
}

/// What a detection step is specified to be: finished with a result or an
/// error message, or suspended for the working directory or the repository
/// lookup, to go on at the given index.
pub enum SpecStep {
    /// Detection finished.
    Done(Result<Seq<char>, Seq<char>>),
    /// Detection waits for the canonicalized working directory.
    PendingPwd(SpecCtx, int),
    /// Detection waits for the repository-metadata lookup.
    PendingScm(SpecCtx, int),
}

/// The message of the error that ends a call in which no detector matched:
/// it quotes the original input verbatim.
pub open spec fn invalid_msg(src: Seq<char>) -> Seq<char> {
    "Invalid source string `"@ + src + "`"@
}

/// Re-attach a forced scheme: the caller's wins when present, else the
/// detector's, else none.
pub open spec fn spec_force(caller: Seq<char>, det: Seq<char>, s: Seq<char>) -> Seq<char> {
    if caller.len() > 0 {
        caller + "::"@ + s
    } else if det.len() > 0 {
        det + "::"@ + s
    } else {
        s
    }
}

/// Compose a matched detector's result with the caller-level forced scheme
/// and subdir: strip the result's own forced scheme and subdir, nest the
/// caller subdir inside the detector subdir, re-embed a non-empty composed
/// subdir into the base URL's path as a literal `//` marker (an error when
/// the base does not parse), and re-attach the winning forced scheme.
pub open spec fn spec_compose(
    forced: Seq<char>,
    subdir: Seq<char>,
    result: Seq<char>,
) -> Result<Seq<char>, Seq<char>> {
    let fs = spec_forced_split(result);
    let ss = spec_subdir_split(fs.1);
    let sub = spec_subdir_join(ss.1, subdir);
    if sub.len() == 0 {
        Ok(spec_force(forced, fs.0, ss.0))
    } else if !url_ok(ss.0) {
        Err(url_err(ss.0))
    } else {
        Ok(spec_force(forced, fs.0, url_with_path(ss.0, url_path(ss.0) + "//"@ + sub)))
    }
}

/// The pipeline state built from a call's inputs: forced scheme and subdir
/// stripped off the source string.
pub open spec fn spec_ctx(src: Seq<char>, pwd: Seq<char>, detectors: Seq<Detector>) -> SpecCtx {
    let fs = spec_forced_split(src);
    let ss = spec_subdir_split(fs.1);
    SpecCtx { src, forced: fs.0, subdir: ss.1, body: ss.0, pwd, detectors }
}

/// The dispatch loop from detector `i` on: each detector is tried in order,
/// the first match wins and is composed, a detector error ends the call, and
/// running out of detectors is an error quoting the original input.
pub open spec fn spec_loop(ctx: SpecCtx, i: int) -> SpecStep
    decreases ctx.detectors.len() - i, 1int,
{
    if i < 0 || i >= ctx.detectors.len() {
        SpecStep::Done(Err(invalid_msg(ctx.src)))
    } else {
        match ctx.detectors[i] {
            Detector::GitHub => step_pure(ctx, i, crate::detector::github::spec_github_detect(ctx.body)),
            Detector::GitLab => step_pure(ctx, i, crate::detector::gitlab::spec_gitlab_detect(ctx.body)),
            Detector::Git => step_pure(ctx, i, crate::detector::git::spec_git_detect(ctx.body)),
            Detector::BitBucket => match crate::detector::bitbucket::spec_bitbucket_immediate(
                ctx.body,
            ) {
                Some(det) => step_pure(ctx, i, det),
                None => SpecStep::PendingScm(ctx, i + 1),
            },
            Detector::File => match crate::detector::file::spec_file_immediate(
                ctx.body,
                ctx.pwd,
            ) {
                Some(det) => step_pure(ctx, i, det),
                None => SpecStep::PendingPwd(ctx, i + 1),
            },
        }
    }
}

/// How one detector's outcome at index `i` advances the loop: no match goes
/// on with the next detector, a match is composed and ends the call, an
/// error ends the call.
pub open spec fn step_pure(ctx: SpecCtx, i: int, det: SpecDetection) -> SpecStep
    decreases ctx.detectors.len() - i, 0int,
{
    match det {
        SpecDetection::NoMatch => {
            if 0 <= i < ctx.detectors.len() {
                spec_loop(ctx, i + 1)
            } else {
                SpecStep::Done(Err(invalid_msg(ctx.src)))
            }
        },
        SpecDetection::Fail(m) => SpecStep::Done(Err(m)),
        SpecDetection::Match(u) => SpecStep::Done(spec_compose(ctx.forced, ctx.subdir, u)),
    }
}

/// How a resumed detector's outcome advances the loop; `next` is the index
/// after the detector that suspended.
pub open spec fn step_resumed(ctx: SpecCtx, next: int, det: SpecDetection) -> SpecStep {
    match det {
        SpecDetection::NoMatch => spec_loop(ctx, next),
        SpecDetection::Fail(m) => SpecStep::Done(Err(m)),
        SpecDetection::Match(u) => SpecStep::Done(spec_compose(ctx.forced, ctx.subdir, u)),
    }
}

/// What [`detect`] returns: the original string verbatim when its stripped
/// body already parses as a URL with a non-empty scheme, else the dispatch
/// loop from the first detector on.
pub open spec fn spec_detect(src: Seq<char>, pwd: Seq<char>, detectors: Seq<Detector>) -> SpecStep {
    let ctx = spec_ctx(src, pwd, detectors);
    if url_ok(ctx.body) && url_scheme(ctx.body).len() > 0 {
        SpecStep::Done(Ok(src))
    } else {
        spec_loop(ctx, 0)
    }
}

/// What [`resume`] returns: the suspended detector finishes from the reply
/// and the loop advances as for any other outcome.
pub open spec fn spec_resume(ctx: SpecCtx, pending: Detector, next: int, reply: Reply) -> SpecStep {
    match (pending, reply) {
        (Detector::File, Reply::CanonicalPwd(c)) => step_resumed(
            ctx,
            next,
            crate::detector::file::spec_file_finish(ctx.body, c),
        ),
        (Detector::BitBucket, Reply::RepoScm(l)) => step_resumed(
            ctx,
            next,
            crate::detector::bitbucket::spec_bitbucket_finish(ctx.body, l),
        ),
        _ => SpecStep::Done(Err(Seq::<char>::empty())),
    }
}

/// The pipeline state a [`DetectState`] stands for.
pub open spec fn ctx_of(st: DetectState) -> SpecCtx {
    SpecCtx {
        src: st.src@,
        forced: st.forced@,
        subdir: st.subdir@,
        body: st.body@,
        pwd: st.pwd@,
        detectors: st.detectors@,
    }
}

/// The executable step `r` agrees with the specified step `m`; a pending
/// step carries the right request and a state that resumes where the
/// specification does.
pub open spec fn step_matches(r: Step, m: SpecStep) -> bool {
    match (r, m) {
        (Step::Done(res), SpecStep::Done(sres)) => match (res, sres) {
            (Ok(s), Ok(v)) => s@ == v,
            (Err(e), Err(msg)) => crate::error::is_detector_error(e, msg),
            _ => false,
        },
        (Step::Pending(req, st), SpecStep::PendingPwd(ctx, next)) => {
            &&& req matches Request::CanonicalizePwd(p) && p@ == ctx.pwd
            &&& ctx_of(st) == ctx
            &&& st.next == next
            &&& 1 <= next <= ctx.detectors.len()
            &&& ctx.detectors[next - 1] == Detector::File
        },
        (Step::Pending(req, st), SpecStep::PendingScm(ctx, next)) => {
            &&& req matches Request::RepoScmLookup(u) && u@
                == crate::detector::bitbucket::spec_lookup_url(ctx.body)
            &&& ctx_of(st) == ctx
            &&& st.next == next
            &&& 1 <= next <= ctx.detectors.len()
            &&& ctx.detectors[next - 1] == Detector::BitBucket
        },
        _ => false,
    }
}

/// Re-attach the winning forced scheme as a `scheme::` prefix.
fn force_str(caller: &str, det: &str, s: &str) -> (r: String)
    ensures
        r@ == spec_force(caller@, det@, s@),
{
    if caller.unicode_len() > 0 {
        let mut r = String::from_str(caller);
        r.append("::");
        r.append(s);
        r
    } else if det.unicode_len() > 0 {
        let mut r = String::from_str(det);
        r.append("::");
        r.append(s);
        r
    } else {
        String::from_str(s)
    }
}

/// Compose a matched detector's result with the caller-level forced scheme
/// and subdir.
fn compose_result(forced: &str, subdir: &str, res: &str) -> (r: Result<String, crate::error::Error>)
    ensures
        match r {
            Ok(s) => spec_compose(forced@, subdir@, res@) == Ok::<Seq<char>, Seq<char>>(s@),
            Err(e) => spec_compose(forced@, subdir@, res@) matches Err(m)
                && crate::error::is_detector_error(e, m),
        },
{
    let (dforce, r1) = get_forced_getter(res);
    let (base, dsub) = source_dir_subdir(r1.as_str());
    let sub = subdir_join(dsub.as_str(), subdir);
    if sub.as_str().unicode_len() == 0 {
        return Ok(force_str(forced, dforce.as_str(), base.as_str()));
    }
    let p = match crate::urlw::parse_path(base.as_str()) {
        Err(e) => {
            return Err(crate::error::detector_error(e));
        },
        Ok(p) => p,
    };
    let mut np = p;
    np.append("//");
    np.append(sub.as_str());
    match crate::urlw::set_path_str(base.as_str(), np.as_str()) {
        Ok(s2) => Ok(force_str(forced, dforce.as_str(), s2.as_str())),
        Err(e) => {
            proof {
                assert(false);
            }
            Err(crate::error::detector_error(e))
        },
    }
}

/// The exhaustion error's message, quoting the original input verbatim.
fn build_invalid(src: &str) -> (r: String)
    ensures
        r@ == invalid_msg(src@),
{
    let mut r = String::from_str("Invalid source string `");
    r.append(src);
    r.append("`");
    r
}

/// An owned copy of the detector registry.
fn copy_detectors(v: &Vec<Detector>) -> (r: Vec<Detector>)
    ensures
        r@ == v@,
{
    let mut r: Vec<Detector> = Vec::new();
    let mut i: usize = 0;
    while i < v.len()
        invariant
            i <= v@.len(),
            r@ == v@.take(i as int),
        decreases v@.len() - i,
    {
        r.push(v[i]);
        proof {
            assert(v@.take(i + 1) =~= v@.take(i as int).push(v@[i as int]));
        }
        i = i + 1;
    }
    proof {
        assert(v@.take(v@.len() as int) =~= v@);
    }
    r
}

/// The state a suspension hands back to the caller: the same pipeline state,
/// set to go on at detector `next`.
fn suspend_state(st: &DetectState, next: usize) -> (r: DetectState)
    ensures
        ctx_of(r) == ctx_of(*st),
        r.next == next,
{
    DetectState {
        src: st.src.clone(),
        forced: st.forced.clone(),
        subdir: st.subdir.clone(),
        body: st.body.clone(),
        pwd: st.pwd.clone(),
        detectors: copy_detectors(&st.detectors),
        next,
    }
}

/// Run the dispatch loop from detector `i` on.
fn run_loop(st: &DetectState, i: usize) -> (r: Step)
    ensures
        step_matches(r, spec_loop(ctx_of(*st), i as int)),
    decreases st.detectors@.len() - i,
{
    let ghost ctx = ctx_of(*st);
    {
        if i >= st.detectors.len() {
            let msg = build_invalid(st.src.as_str());
            return Step::Done(Err(crate::error::detector_error(msg)));
        }
        let d = st.detectors[i];
        let det: Result<(String, bool), crate::error::Error> = match d {
            Detector::GitHub => crate::detector::github::GitHubDetector.detect(
                st.body.as_str(),
                st.pwd.as_str(),
            ),
            Detector::GitLab => crate::detector::gitlab::GitLabDetector.detect(
                st.body.as_str(),
                st.pwd.as_str(),
            ),
            Detector::Git => crate::detector::git::GitDetector.detect(
                st.body.as_str(),
                st.pwd.as_str(),
            ),
            Detector::BitBucket => {
                match crate::detector::bitbucket::BitBucketDetector.probe(st.body.as_str()) {
                    crate::detector::bitbucket::BitBucketProbe::Done(x) => x,
                    crate::detector::bitbucket::BitBucketProbe::Lookup(u) => {
                        return Step::Pending(Request::RepoScmLookup(u), suspend_state(st, i + 1));
                    },
                }
            },
            Detector::File => {
                match crate::detector::file::FileDetector.detect_immediate(
                    st.body.as_str(),
                    st.pwd.as_str(),
                ) {
                    Some(x) => x,
                    None => {
                        let p = st.pwd.clone();
                        return Step::Pending(
                            Request::CanonicalizePwd(p),
                            suspend_state(st, i + 1),
                        );
                    },
                }
            },
        };
        match det {
            Err(e) => {
                return Step::Done(Err(e));
            },
            Ok((res, ok)) => {
                if ok {
                    return Step::Done(
                        compose_result(st.forced.as_str(), st.subdir.as_str(), res.as_str()),
                    );
                }
            },
        }
        run_loop(st, i + 1)
    }
}

/// Turn a source string into another source string when it is detected to be
/// of a known pattern, trying the given detectors in order.
///
/// An already valid source string — one whose forced-scheme-and-subdir
/// stripped body parses as a URL with a non-empty scheme — is returned
/// verbatim. A step may come back [`Step::Pending`]: perform the request it
/// carries and hand the answer to [`resume`].
pub fn detect(src: &str, pwd: &str, detectors: &Vec<Detector>) -> (r: Step)
    ensures
        step_matches(r, spec_detect(src@, pwd@, detectors@)),
{
    let (forced, rest) = get_forced_getter(src);
    let (body, subdir) = source_dir_subdir(rest.as_str());
    let short = match crate::urlw::parse_scheme(body.as_str()) {
        Ok(sch) => sch.as_str().unicode_len() > 0,
        Err(_) => false,
    };
    if short {
        return Step::Done(Ok(String::from_str(src)));
    }
    let st = DetectState {
        src: String::from_str(src),
        forced,
        subdir,
        body,
        pwd: String::from_str(pwd),
        detectors: copy_detectors(detectors),
        next: 0,
    };
    proof {
        assert(ctx_of(st) == spec_ctx(src@, pwd@, detectors@));
    }
    run_loop(&st, 0)
}

/// Resume a suspended detection with the answer to its request. The reply
/// must answer the request the returned step carried: the canonicalized
/// working directory for a suspended file detector, the metadata lookup's
/// outcome for a suspended BitBucket detector.
pub fn resume(st: DetectState, reply: Reply) -> (r: Step)
    requires
        1 <= st.next <= st.detectors@.len(),
        st.detectors@[st.next - 1] == Detector::File || st.detectors@[st.next - 1]
            == Detector::BitBucket,
        st.detectors@[st.next - 1] == Detector::File ==> reply is CanonicalPwd,
        st.detectors@[st.next - 1] == Detector::BitBucket ==> reply is RepoScm,
    ensures
        step_matches(r, spec_resume(ctx_of(st), st.detectors@[st.next - 1], st.next as int, reply)),
{
    let pending = st.detectors[st.next - 1];
    match pending {
        Detector::File => match reply {
            Reply::CanonicalPwd(c) => {
                let det = crate::detector::file::FileDetector.finish(st.body.as_str(), &c);
                match det {
                    Err(e) => Step::Done(Err(e)),
                    Ok((res, ok)) => {
                        if ok {
                            Step::Done(
                                compose_result(
                                    st.forced.as_str(),
                                    st.subdir.as_str(),
                                    res.as_str(),
                                ),
                            )
                        } else {
                            let next = st.next;
                            run_loop(&st, next)
                        }
                    },
                }
            },
            Reply::RepoScm(_) => {
                proof {
                    assert(false);
                }
                Step::Done(Err(crate::error::detector_error(String::new())))
            },
        },
        Detector::BitBucket => match reply {
            Reply::RepoScm(l) => {
                let det = crate::detector::bitbucket::BitBucketDetector.finish(
                    st.body.as_str(),
                    &l,
                );
                match det {
                    Err(e) => Step::Done(Err(e)),
                    Ok((res, ok)) => {
                        if ok {
                            Step::Done(
                                compose_result(
                                    st.forced.as_str(),
                                    st.subdir.as_str(),
                                    res.as_str(),
                                ),
                            )
                        } else {
                            let next = st.next;
                            run_loop(&st, next)
                        }
                    },
                }
            },
            Reply::CanonicalPwd(_) => {
                proof {
                    assert(false);
                }
                Step::Done(Err(crate::error::detector_error(String::new())))
            },
        },
        _ => {
            proof {
                assert(false);
            }
            Step::Done(Err(crate::error::detector_error(String::new())))
        },
    }
}

/// Idempotence / short-circuit: a source string whose forced-scheme- and
/// subdir-stripped body already parses as a URL with a non-empty scheme is
/// detected as itself, verbatim, for every detector set, including the
/// empty one.
pub proof fn lemma_short_circuit(src: Seq<char>, pwd: Seq<char>, detectors: Seq<Detector>)
    requires
        url_ok(spec_ctx(src, pwd, detectors).body),
        url_scheme(spec_ctx(src, pwd, detectors).body).len() > 0,
    ensures
        spec_detect(src, pwd, detectors) == SpecStep::Done(Ok::<Seq<char>, Seq<char>>(src)),
{
}

/// No-match exhaustion: with no detector to try and no short-circuit, the
/// call fails with a detector error quoting the original input verbatim.
pub proof fn lemma_no_match_exhaustion(src: Seq<char>, pwd: Seq<char>)
    requires
        !(url_ok(spec_ctx(src, pwd, Seq::<Detector>::empty()).body) && url_scheme(
            spec_ctx(src, pwd, Seq::<Detector>::empty()).body,
        ).len() > 0),
    ensures
        spec_detect(src, pwd, Seq::<Detector>::empty()) == SpecStep::Done(
            Err::<Seq<char>, Seq<char>>(invalid_msg(src)),
        ),
{
}

/// Subdir composition order: when a matched detector's result carries its
/// own subdir and the caller supplied one too, the subdir embedded into the
/// base URL's path is `detectorSubdir/callerSubdir`, never the reverse.
pub proof fn lemma_subdir_composition(forced: Seq<char>, subdir: Seq<char>, result: Seq<char>)
    requires
        spec_subdir_split(spec_forced_split(result).1).1.len() > 0,
        subdir.len() > 0,
        url_ok(spec_subdir_split(spec_forced_split(result).1).0),
    ensures
        ({
            let fs = spec_forced_split(result);
            let ss = spec_subdir_split(fs.1);
            spec_compose(forced, subdir, result) == Ok::<Seq<char>, Seq<char>>(
                spec_force(
                    forced,
                    fs.0,
                    url_with_path(ss.0, url_path(ss.0) + "//"@ + (ss.1 + seq!['/'] + subdir)),
                ),
            )
        }),
{
}

/// A caller-level forced scheme prefixes whatever `spec_force` re-attaches.
proof fn lemma_force_prefix(caller: Seq<char>, det: Seq<char>, s: Seq<char>)
    requires
        caller.len() > 0,
    ensures
        is_prefix_of(caller + "::"@, spec_force(caller, det, s)),
{
    let p = caller + "::"@;
    let w = spec_force(caller, det, s);
    assert(p =~= w.subrange(0, p.len() as int));
}

/// A caller-level forced scheme prefixes any successful composition.
proof fn lemma_compose_forced(
    forced: Seq<char>,
    subdir: Seq<char>,
    result: Seq<char>,
    out: Seq<char>,
)
    requires
        forced.len() > 0,
        spec_compose(forced, subdir, result) == Ok::<Seq<char>, Seq<char>>(out),
    ensures
        is_prefix_of(forced + "::"@, out),
{
    let fs = spec_forced_split(result);
    let ss = spec_subdir_split(fs.1);
    let sub = spec_subdir_join(ss.1, subdir);
    if sub.len() == 0 {
        lemma_force_prefix(forced, fs.0, ss.0);
    } else {
        lemma_force_prefix(forced, fs.0, url_with_path(ss.0, url_path(ss.0) + "//"@ + sub));
    }
}

/// A caller-level forced scheme prefixes any successful outcome of the
/// dispatch loop.
proof fn lemma_loop_forced(ctx: SpecCtx, i: int, out: Seq<char>)
    requires
        ctx.forced.len() > 0,
        spec_loop(ctx, i) == SpecStep::Done(Ok::<Seq<char>, Seq<char>>(out)),
    ensures
        is_prefix_of(ctx.forced + "::"@, out),
    decreases ctx.detectors.len() - i, 1int,
{
    if 0 <= i < ctx.detectors.len() {
        match ctx.detectors[i] {
            Detector::GitHub => {
                lemma_step_forced(
                    ctx,
                    i,
                    crate::detector::github::spec_github_detect(ctx.body),
                    out,
                );
            },
            Detector::GitLab => {
                lemma_step_forced(
                    ctx,
                    i,
                    crate::detector::gitlab::spec_gitlab_detect(ctx.body),
                    out,
                );
            },
            Detector::Git => {
                lemma_step_forced(ctx, i, crate::detector::git::spec_git_detect(ctx.body), out);
            },
            Detector::BitBucket => {
                match crate::detector::bitbucket::spec_bitbucket_immediate(ctx.body) {
                    Some(det) => {
                        lemma_step_forced(ctx, i, det, out);
                    },
                    None => {},
                }
            },
            Detector::File => {
                match crate::detector::file::spec_file_immediate(ctx.body, ctx.pwd) {
                    Some(det) => {
                        lemma_step_forced(ctx, i, det, out);
                    },
                    None => {},
                }
            },
        }
    }
}

/// A caller-level forced scheme prefixes any successful outcome of one
/// detector step.
proof fn lemma_step_forced(ctx: SpecCtx, i: int, det: SpecDetection, out: Seq<char>)
    requires
        ctx.forced.len() > 0,
        step_pure(ctx, i, det) == SpecStep::Done(Ok::<Seq<char>, Seq<char>>(out)),
    ensures
        is_prefix_of(ctx.forced + "::"@, out),
    decreases ctx.detectors.len() - i, 0int,
{
    match det {
        SpecDetection::NoMatch => {
            if 0 <= i < ctx.detectors.len() {
                lemma_loop_forced(ctx, i + 1, out);
            }
        },
        SpecDetection::Fail(m) => {},
        SpecDetection::Match(u) => {
            lemma_compose_forced(ctx.forced, ctx.subdir, u, out);
        },
    }
}

/// A source string that carries a forced scheme starts with `scheme::`.
proof fn lemma_forced_prefix_of_src(src: Seq<char>)
    requires
        spec_forced_matches(src),
    ensures
        is_prefix_of(spec_forced_split(src).0 + "::"@, src),
{
    let k = alnum_run(src);
    lemma_alnum_run(src);
    reveal_strlit("::");
    assert("::"@ =~= seq![':', ':']);
    let p = spec_forced_split(src).0 + "::"@;
    assert(p.len() == k + 2);
    assert forall|j: int| 0 <= j < p.len() implies p[j] == src[j] by {
        if j < k {
            assert(p[j] == src.take(k)[j]);
        } else if j == k {
            assert(p[j] == seq![':', ':'][0]);
        } else {
            assert(p[j] == seq![':', ':'][1]);
        }
    }
    assert(p =~= src.subrange(0, p.len() as int));
}

/// Forced-scheme precedence: when the source string carries a caller-level
/// forced scheme, any string that [`detect`] returns carries that scheme as
/// its `scheme::` prefix, whatever any matching detector injected.
pub proof fn lemma_forced_precedence(
    src: Seq<char>,
    pwd: Seq<char>,
    detectors: Seq<Detector>,
    out: Seq<char>,
)
    requires
        spec_forced_split(src).0.len() > 0,
        spec_detect(src, pwd, detectors) == SpecStep::Done(Ok::<Seq<char>, Seq<char>>(out)),
    ensures
        is_prefix_of(spec_forced_split(src).0 + "::"@, out),
{
    let ctx = spec_ctx(src, pwd, detectors);
    if url_ok(ctx.body) && url_scheme(ctx.body).len() > 0 {
        lemma_forced_prefix_of_src(src);
    } else {
        lemma_loop_forced(ctx, 0, out);
    }
}

/// A caller-level forced scheme prefixes any successful outcome of a
/// resumed detector step.
proof fn lemma_resumed_forced(ctx: SpecCtx, next: int, det: SpecDetection, out: Seq<char>)
    requires
        ctx.forced.len() > 0,
        step_resumed(ctx, next, det) == SpecStep::Done(Ok::<Seq<char>, Seq<char>>(out)),
    ensures
        is_prefix_of(ctx.forced + "::"@, out),
{
    match det {
        SpecDetection::NoMatch => {
            lemma_loop_forced(ctx, next, out);
        },
        SpecDetection::Fail(m) => {},
        SpecDetection::Match(u) => {
            lemma_compose_forced(ctx.forced, ctx.subdir, u, out);
        },
    }
}

/// Forced-scheme precedence for a resumed detection.
pub proof fn lemma_resume_forced_precedence(
    ctx: SpecCtx,
    pending: Detector,
    next: int,
    reply: Reply,
    out: Seq<char>,
)
    requires
        ctx.forced.len() > 0,
        spec_resume(ctx, pending, next, reply) == SpecStep::Done(Ok::<Seq<char>, Seq<char>>(out)),
    ensures
        is_prefix_of(ctx.forced + "::"@, out),
{
    match (pending, reply) {
        (Detector::File, Reply::CanonicalPwd(c)) => {
            lemma_resumed_forced(
                ctx,
                next,
                crate::detector::file::spec_file_finish(ctx.body, c),
                out,
            );
        },
        (Detector::BitBucket, Reply::RepoScm(l)) => {
            lemma_resumed_forced(
                ctx,
                next,
                crate::detector::bitbucket::spec_bitbucket_finish(ctx.body, l),
                out,
            );
        },
        _ => {},
    }
}

} // verus!
