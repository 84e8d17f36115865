use getter::{detect, resume, default_detectors, Detector, Error, Reply, Request, Step};

fn run_detect(src: &str, pwd: &str, dets: &Vec<Detector>) -> Result<String, Error> {
    match detect(src, pwd, dets) {
        Step::Done(r) => r,
        Step::Pending(req, st) => match req {
            Request::CanonicalizePwd(p) => match resume(st, Reply::CanonicalPwd(Ok(p))) {
                Step::Done(r) => r,
                Step::Pending(_, _) => panic!("a second suspension was not expected"),
            },
            Request::RepoScmLookup(_) => panic!("a repository lookup was not expected"),
        },
    }
}

#[test]
fn detect_1() {
    assert_eq!(
        run_detect("./foo", "/opt", &default_detectors()).unwrap(),
        "file:///opt/foo"
    );
}

#[test]
fn detect_2() {
    assert_eq!(
        run_detect("git::./foo", "/opt", &default_detectors()).unwrap(),
        "git::file:///opt/foo"
    );
}

#[test]
fn detect_3() {
    assert_eq!(
        run_detect("git::github.com/blessanabraham/foo", "", &default_detectors()).unwrap(),
        "git::https://github.com/blessanabraham/foo.git"
    );
}

#[test]
fn detect_4() {
    assert_eq!(
        run_detect("./foo//bar", "/opt", &default_detectors()).unwrap(),
        "file:///opt/foo//bar"
    );
}

#[test]
fn detect_5() {
    assert_eq!(
        run_detect(
            "git::github.com/blessanabraham/foo//bar",
            "",
            &default_detectors()
        )
        .unwrap(),
        "git::https://github.com/blessanabraham/foo.git//bar"
    );
}

#[test]
fn detect_6() {
    assert_eq!(
        run_detect(
            "git::https://github.com/blessanabraham/rs-getter.git",
            "",
            &default_detectors()
        )
        .unwrap(),
        "git::https://github.com/blessanabraham/rs-getter.git"
    );
}

#[test]
fn detect_7() {
    assert_eq!(
        run_detect(
            "git::https://person@someothergit.com/foo/bar",
            "",
            &default_detectors()
        )
        .unwrap(),
        "git::https://person@someothergit.com/foo/bar"
    );
}

#[test]
fn detect_8() {
    assert_eq!(
        run_detect(
            "git::https://person@someothergit.com/foo/bar",
            "/opt",
            &default_detectors()
        )
        .unwrap(),
        "git::https://person@someothergit.com/foo/bar"
    );
}

#[test]
fn detect_9() {
    assert_eq!(
        run_detect("./foo/archive//*", "/opt", &default_detectors()).unwrap(),
        "file:///opt/foo/archive//*"
    );
}

#[test]
fn detect_10() {
    assert_eq!(
        run_detect(
            "git::ssh://git@my.custom.git/dir1/dir2",
            "",
            &default_detectors()
        )
        .unwrap(),
        "git::ssh://git@my.custom.git/dir1/dir2"
    );
}

#[test]
fn detect_11() {
    assert_eq!(
        run_detect("git::git@my.custom.git:dir1/dir2", "/opt", &default_detectors()).unwrap(),
        "git::ssh://git@my.custom.git/dir1/dir2"
    );
}

#[test]
fn detect_12() {
    assert_eq!(
        run_detect("git::git@my.custom.git:dir1/dir2", "", &default_detectors()).unwrap(),
        "git::ssh://git@my.custom.git/dir1/dir2"
    );
}

#[test]
fn detect_no_match_exhaustion_empty_input() {
    let dets: Vec<Detector> = Vec::new();
    let err = run_detect("", "/pwd", &dets).unwrap_err();
    assert_eq!(err.source.as_deref(), Some("Invalid source string ``"));
    assert_eq!(err.kind, getter::ErrorKind::Detector);
}

#[test]
fn detect_empty_input_with_default_registry() {
    // Every detector treats empty input as no match, so the call exhausts
    // the whole default registry without suspending.
    let err = run_detect("", "/pwd", &default_detectors()).unwrap_err();
    assert_eq!(err.source.as_deref(), Some("Invalid source string ``"));
}

#[test]
fn detect_no_match_exhaustion_quotes_input() {
    let dets: Vec<Detector> = Vec::new();
    let err = run_detect("mystery", "/pwd", &dets).unwrap_err();
    assert_eq!(err.source.as_deref(), Some("Invalid source string `mystery`"));
}

#[test]
fn detect_scenario_relative_file() {
    let dets = vec![Detector::File];
    assert_eq!(run_detect("./foo", "/opt", &dets).unwrap(), "file:///opt/foo");
}

#[test]
fn detect_scenario_forced_relative_file() {
    let dets = vec![Detector::File];
    assert_eq!(
        run_detect("git::./foo", "/opt", &dets).unwrap(),
        "git::file:///opt/foo"
    );
}

#[test]
fn detect_scenario_github_shorthand() {
    let dets = vec![Detector::GitHub];
    assert_eq!(
        run_detect("github.com/acme/widget", "", &dets).unwrap(),
        "git::https://github.com/acme/widget.git"
    );
}

#[test]
fn detect_scenario_github_subdir() {
    let dets = vec![Detector::GitHub];
    assert_eq!(
        run_detect("github.com/acme/widget/src", "", &dets).unwrap(),
        "git::https://github.com/acme/widget.git//src"
    );
}

#[test]
fn detect_scenario_git_ssh() {
    let dets = vec![Detector::Git];
    assert_eq!(
        run_detect("git@github.com:acme/widget.git", "", &dets).unwrap(),
        "git::ssh://git@github.com/acme/widget.git"
    );
}

#[test]
fn detect_scenario_short_circuit_byte_identical() {
    let dets = vec![Detector::GitHub];
    assert_eq!(
        run_detect("git::https://github.com/acme/widget.git", "", &dets).unwrap(),
        "git::https://github.com/acme/widget.git"
    );
}

#[test]
fn detect_scenario_forced_subdir_composition() {
    // The caller-level forced scheme takes precedence over the `git` the
    // detector injects, and the detector-produced subdir survives.
    let dets = vec![Detector::GitHub];
    assert_eq!(
        run_detect("X::github.com/o/r/sub2", "/pwd", &dets).unwrap(),
        "X::https://github.com/o/r.git//sub2"
    );
}

#[test]
fn detect_scenario_git_forced_subdir_composition() {
    let dets = vec![Detector::GitHub];
    assert_eq!(
        run_detect("git::github.com/o/r/sub2", "/pwd", &dets).unwrap(),
        "git::https://github.com/o/r.git//sub2"
    );
}

#[test]
fn detect_nested_subdir_composition_order() {
    // The detector-produced subdir is the outer directory; the caller-level
    // one nests inside it.
    let dets = vec![Detector::GitHub];
    assert_eq!(
        run_detect("github.com/o/r/sub1//sub2", "/pwd", &dets).unwrap(),
        "git::https://github.com/o/r.git//sub1/sub2"
    );
}
