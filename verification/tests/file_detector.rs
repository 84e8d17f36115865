use getter::{detect, resume, Detector, Error, Reply, Request, Step};

fn run_file(src: &str, pwd: &str) -> Result<String, Error> {
    let dets = vec![Detector::File];
    match detect(src, pwd, &dets) {
        Step::Done(r) => r,
        Step::Pending(req, st) => {
            let p = match req {
                Request::CanonicalizePwd(p) => p,
                Request::RepoScmLookup(_) => {
                    panic!("the file detector asks for a directory, not a lookup")
                },
            };
            // The test working directories stand for themselves: hand the
            // path back as its own canonical form.
            match resume(st, Reply::CanonicalPwd(Ok(p))) {
                Step::Done(r) => r,
                Step::Pending(_, _) => panic!("a second suspension was not expected"),
            }
        },
    }
}

#[test]
fn file_detect_1() {
    assert_eq!(run_file("./foo", "/opt").unwrap(), "file:///opt/foo");
}

#[test]
fn file_detect_2() {
    assert_eq!(
        run_file("./foo?foo=bar", "/opt").unwrap(),
        "file:///opt/foo?foo=bar"
    );
}

#[test]
fn file_detect_3() {
    assert_eq!(run_file("foo", "/opt").unwrap(), "file:///opt/foo");
}

#[test]
fn file_detect_unix_2() {
    assert_eq!(run_file("/foo", "/opt").unwrap(), "file:///foo");
}

#[test]
fn file_detect_unix_3() {
    assert_eq!(run_file("/foo?bar=baz", "/opt").unwrap(), "file:///foo?bar=baz");
}

#[test]
fn file_no_pwd_unix_1() {
    assert_eq!(run_file("/opt", "").unwrap(), "file:///opt");
}

#[test]
fn file_no_pwd_relative_1() {
    let err = run_file("./foo", "").unwrap_err();
    assert_eq!(
        err.source.as_deref(),
        Some("relative paths require a module with a pwd")
    );
}

#[test]
fn file_no_pwd_relative_2() {
    let err = run_file("foo", "").unwrap_err();
    assert_eq!(
        err.source.as_deref(),
        Some("relative paths require a module with a pwd")
    );
}

#[test]
fn file_parent_elision() {
    // `..` segments are elided lexically, without filesystem resolution, so
    // paths that do not exist stay nameable.
    assert_eq!(
        run_file("../modules/foo", "/tmp/base/subdir").unwrap(),
        "file:///tmp/base/modules/foo"
    );
}

#[test]
fn file_canonicalize_failure() {
    let dets = vec![Detector::File];
    match detect("./foo", "/nosuch", &dets) {
        Step::Pending(Request::CanonicalizePwd(p), st) => {
            assert_eq!(p, "/nosuch");
            match resume(
                st,
                Reply::CanonicalPwd(Err("No such file or directory (os error 2)".to_string())),
            ) {
                Step::Done(r) => {
                    assert_eq!(
                        r.unwrap_err().source.as_deref(),
                        Some("No such file or directory (os error 2)")
                    );
                },
                Step::Pending(_, _) => panic!("a second suspension was not expected"),
            }
        },
        _ => panic!("a relative path with a pwd suspends for canonicalization"),
    }
}
