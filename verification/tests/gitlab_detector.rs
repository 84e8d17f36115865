use getter::{detect, Detector, Error, Step};

fn run_gitlab(src: &str) -> Result<String, Error> {
    let dets = vec![Detector::GitLab];
    match detect(src, "/pwd", &dets) {
        Step::Done(r) => r,
        Step::Pending(_, _) => panic!("the GitLab detector never suspends"),
    }
}

#[test]
fn gitlab_detect_1() {
    assert_eq!(
        run_gitlab("gitlab.com/blessanabraham/foo").unwrap(),
        "git::https://gitlab.com/blessanabraham/foo.git"
    );
}

#[test]
fn gitlab_detect_2() {
    assert_eq!(
        run_gitlab("gitlab.com/blessanabraham/foo.git").unwrap(),
        "git::https://gitlab.com/blessanabraham/foo.git"
    );
}

#[test]
fn gitlab_detect_3() {
    assert_eq!(
        run_gitlab("gitlab.com/blessanabraham/foo/bar").unwrap(),
        "git::https://gitlab.com/blessanabraham/foo.git//bar"
    );
}

#[test]
fn gitlab_detect_4() {
    assert_eq!(
        run_gitlab("gitlab.com/blessanabraham/foo?foo=bar").unwrap(),
        "git::https://gitlab.com/blessanabraham/foo.git?foo=bar"
    );
}

#[test]
fn gitlab_detect_5() {
    assert_eq!(
        run_gitlab("gitlab.com/blessanabraham/foo.git?foo=bar").unwrap(),
        "git::https://gitlab.com/blessanabraham/foo.git?foo=bar"
    );
}

#[test]
fn gitlab_detect_too_few_segments() {
    let err = run_gitlab("gitlab.com/onlyowner").unwrap_err();
    assert_eq!(
        err.source.as_deref(),
        Some("GitHub URLs should be gitlab.com/username/repo")
    );
}
