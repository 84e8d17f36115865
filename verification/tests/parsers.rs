use getter::detector::{get_forced_getter, source_dir_subdir, subdir_join};
use getter::{ClientMode, Error, ErrorKind, HttpGetter};

#[test]
fn parser_forced_split_basic() {
    let (forced, rest) = get_forced_getter("git::https://host/repo");
    assert_eq!(forced, "git");
    assert_eq!(rest, "https://host/repo");
}

#[test]
fn parser_forced_split_no_prefix() {
    let (forced, rest) = get_forced_getter("https://host/repo");
    assert_eq!(forced, "");
    assert_eq!(rest, "https://host/repo");
}

#[test]
fn parser_forced_split_needs_remainder() {
    let (forced, rest) = get_forced_getter("git::");
    assert_eq!(forced, "");
    assert_eq!(rest, "git::");
}

#[test]
fn parser_forced_split_token_is_alphanumeric() {
    let (forced, rest) = get_forced_getter("s3(x)::bucket");
    assert_eq!(forced, "");
    assert_eq!(rest, "s3(x)::bucket");
}

#[test]
fn parser_subdir_none() {
    let (base, subdir) = source_dir_subdir("dom.com/path/?q=p");
    assert_eq!(base, "dom.com/path/?q=p");
    assert_eq!(subdir, "");
}

#[test]
fn parser_subdir_star() {
    let (base, subdir) = source_dir_subdir("proto://dom.com/path//*?q=p");
    assert_eq!(base, "proto://dom.com/path?q=p");
    assert_eq!(subdir, "*");
}

#[test]
fn parser_subdir_path() {
    let (base, subdir) = source_dir_subdir("proto://dom.com/path//path2?q=p");
    assert_eq!(base, "proto://dom.com/path?q=p");
    assert_eq!(subdir, "path2");
}

#[test]
fn parser_subdir_scheme_not_marker() {
    let (base, subdir) = source_dir_subdir("https://dom.com/path");
    assert_eq!(base, "https://dom.com/path");
    assert_eq!(subdir, "");
}

#[test]
fn parser_subdir_query_never_scanned() {
    // A `//` inside the query region never triggers subdir detection.
    let (base, subdir) = source_dir_subdir("dom.com/path?redirect=https://other//x");
    assert_eq!(base, "dom.com/path?redirect=https://other//x");
    assert_eq!(subdir, "");
}

#[test]
fn parser_subdir_join_passes_empty_operands() {
    assert_eq!(subdir_join("", "inner"), "inner");
    assert_eq!(subdir_join("outer", ""), "outer");
    assert_eq!(subdir_join("outer", "inner"), "outer/inner");
}

#[test]
fn parser_error_display() {
    let e = Error::new(ErrorKind::Detector, Some("boom".to_string()));
    assert_eq!(e.display_string(), "detector error: boom");
    assert!(e.url().is_none());
    let g = Error::new(ErrorKind::Getter, None);
    assert_eq!(g.display_string(), "getter error");
}

#[test]
fn parser_http_client_mode() {
    let g = HttpGetter;
    assert!(matches!(g.client_mode("https://host/dir/").unwrap(), ClientMode::Dir));
    assert!(matches!(g.client_mode("https://host/file").unwrap(), ClientMode::File));
}
