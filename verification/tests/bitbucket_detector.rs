use getter::{detect, resume, Detector, Error, Reply, Request, ScmLookup, Step};

fn run_bitbucket(src: &str, lookup: ScmLookup) -> (String, Result<String, Error>) {
    let dets = vec![Detector::BitBucket];
    match detect(src, "/pwd", &dets) {
        Step::Done(r) => (String::new(), r),
        Step::Pending(req, st) => {
            let url = match req {
                Request::RepoScmLookup(u) => u,
                Request::CanonicalizePwd(_) => {
                    panic!("the BitBucket detector asks for a lookup, not a directory")
                },
            };
            match resume(st, Reply::RepoScm(lookup)) {
                Step::Done(r) => (url, r),
                Step::Pending(_, _) => panic!("a second suspension was not expected"),
            }
        },
    }
}

#[test]
fn bitbucket_detect_1() {
    let (url, r) = run_bitbucket(
        "bitbucket.org/hashicorp/tf-test-git",
        ScmLookup::Scm("git".to_string()),
    );
    assert_eq!(
        url,
        "https://api.bitbucket.org/2.0/repositories/hashicorp/tf-test-git"
    );
    assert_eq!(r.unwrap(), "git::https://bitbucket.org/hashicorp/tf-test-git.git");
}

#[test]
fn bitbucket_detect_2() {
    let (url, r) = run_bitbucket(
        "bitbucket.org/hashicorp/tf-test-git.git",
        ScmLookup::Scm("git".to_string()),
    );
    assert_eq!(
        url,
        "https://api.bitbucket.org/2.0/repositories/hashicorp/tf-test-git.git"
    );
    assert_eq!(r.unwrap(), "git::https://bitbucket.org/hashicorp/tf-test-git.git");
}

#[test]
fn bitbucket_detect_hg() {
    let (_, r) = run_bitbucket(
        "bitbucket.org/someuser/hg-repo",
        ScmLookup::Scm("hg".to_string()),
    );
    assert_eq!(r.unwrap(), "hg::https://bitbucket.org/someuser/hg-repo");
}

#[test]
fn bitbucket_detect_forbidden() {
    let (_, r) = run_bitbucket("bitbucket.org/private/repo", ScmLookup::Forbidden);
    assert_eq!(
        r.unwrap_err().source.as_deref(),
        Some("shorthand BitBucket URL can't be used for private repos, please use a full URL")
    );
}

#[test]
fn bitbucket_detect_unknown_scm() {
    let (_, r) = run_bitbucket(
        "bitbucket.org/odd/repo",
        ScmLookup::Scm("svn".to_string()),
    );
    assert_eq!(
        r.unwrap_err().source.as_deref(),
        Some("unknown BitBucket SCM type: svn")
    );
}

#[test]
fn bitbucket_detect_transport_failure() {
    let (_, r) = run_bitbucket(
        "bitbucket.org/some/repo",
        ScmLookup::Failed("connection reset".to_string()),
    );
    assert_eq!(r.unwrap_err().source.as_deref(), Some("connection reset"));
}

#[test]
fn bitbucket_detect_no_claim() {
    // Input without the bitbucket.org/ prefix is no match; with only the
    // BitBucket detector registered the call ends in the exhaustion error.
    let dets = vec![Detector::BitBucket];
    match detect("example.com/a/b", "/pwd", &dets) {
        Step::Done(r) => {
            assert_eq!(
                r.unwrap_err().source.as_deref(),
                Some("Invalid source string `example.com/a/b`")
            );
        },
        Step::Pending(_, _) => panic!("no lookup should be asked for"),
    }
}
