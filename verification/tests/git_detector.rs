use getter::{detect, Detector, Error, Step};

fn run_git(src: &str) -> Result<String, Error> {
    let dets = vec![Detector::Git];
    match detect(src, "/pwd", &dets) {
        Step::Done(r) => r,
        Step::Pending(_, _) => panic!("the Git SSH detector never suspends"),
    }
}

#[test]
fn git_detect_1() {
    assert_eq!(
        run_git("git@github.com:blessanabraham/foo.git").unwrap(),
        "git::ssh://git@github.com/blessanabraham/foo.git"
    );
}

#[test]
fn git_detect_2() {
    assert_eq!(
        run_git("git@github.com:org/project.git?ref=test-branch").unwrap(),
        "git::ssh://git@github.com/org/project.git?ref=test-branch"
    );
}

#[test]
fn git_detect_3() {
    assert_eq!(
        run_git("git@github.com:blessanabraham/foo.git//bar").unwrap(),
        "git::ssh://git@github.com/blessanabraham/foo.git//bar"
    );
}

#[test]
fn git_detect_4() {
    assert_eq!(
        run_git("git@github.com:blessanabraham/foo.git?foo=bar").unwrap(),
        "git::ssh://git@github.com/blessanabraham/foo.git?foo=bar"
    );
}

#[test]
fn git_detect_5() {
    assert_eq!(
        run_git("git@github.xyz.com:org/project.git").unwrap(),
        "git::ssh://git@github.xyz.com/org/project.git"
    );
}

#[test]
fn git_detect_6() {
    assert_eq!(
        run_git("git@github.xyz.com:org/project.git?ref=test-branch").unwrap(),
        "git::ssh://git@github.xyz.com/org/project.git?ref=test-branch"
    );
}

#[test]
fn git_detect_7() {
    assert_eq!(
        run_git("git@github.xyz.com:org/project.git//module/a").unwrap(),
        "git::ssh://git@github.xyz.com/org/project.git//module/a"
    );
}

#[test]
fn git_detect_8() {
    assert_eq!(
        run_git("git@github.xyz.com:org/project.git//module/a?ref=test-branch").unwrap(),
        "git::ssh://git@github.xyz.com/org/project.git//module/a?ref=test-branch"
    );
}

// Already in the canonical form, so no rewriting is required. When the ssh:
// protocol is used explicitly, it is recognized as URL form rather than
// SCP-like form, so the part after the colon is a port number, not part of
// the path.
#[test]
fn git_detect_9() {
    assert_eq!(
        run_git("git::ssh://git@git.example.com:2222/hashicorp/foo.git").unwrap(),
        "git::ssh://git@git.example.com:2222/hashicorp/foo.git"
    );
}

#[test]
fn git_detect_other_username_is_no_match() {
    // A username other than `git` is "not a git remote": no match, so an
    // empty detector run ends in the exhaustion error, not a rewrite.
    let err = run_git("someone@host.com:dir/proj").unwrap_err();
    assert_eq!(
        err.source.as_deref(),
        Some("Invalid source string `someone@host.com:dir/proj`")
    );
}
