use getter::{detect, Detector, Error, Step};

fn run_github(src: &str) -> Result<String, Error> {
    let dets = vec![Detector::GitHub];
    match detect(src, "/pwd", &dets) {
        Step::Done(r) => r,
        Step::Pending(_, _) => panic!("the GitHub detector never suspends"),
    }
}

#[test]
fn github_detect_1() {
    assert_eq!(
        run_github("github.com/blessanabraham/rs-getter").unwrap(),
        "git::https://github.com/blessanabraham/rs-getter.git"
    );
}

#[test]
fn github_detect_2() {
    assert_eq!(
        run_github("github.com/blessanabraham/rs-getter.git").unwrap(),
        "git::https://github.com/blessanabraham/rs-getter.git"
    );
}

#[test]
fn github_detect_3() {
    assert_eq!(
        run_github("github.com/blessanabraham/rs-getter/src").unwrap(),
        "git::https://github.com/blessanabraham/rs-getter.git//src"
    );
}

#[test]
fn github_detect_4() {
    assert_eq!(
        run_github("github.com/blessanabraham/rs-getter?foo=bar").unwrap(),
        "git::https://github.com/blessanabraham/rs-getter.git?foo=bar"
    );
}

#[test]
fn github_detect_5() {
    assert_eq!(
        run_github("github.com/blessanabraham/rs-getter.git?foo=bar").unwrap(),
        "git::https://github.com/blessanabraham/rs-getter.git?foo=bar"
    );
}

#[test]
fn github_detect_too_few_segments() {
    let err = run_github("github.com/onlyowner").unwrap_err();
    assert_eq!(
        err.source.as_deref(),
        Some("GitHub URLs should be github.com/username/repo")
    );
}
