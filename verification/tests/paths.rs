use rnix_normalize::nix_path::{bracketed_name, path_to_nixpkgs};
use rnix_normalize::text::{chars_from, has_prefix, split_chars};
use rnix_normalize::value::is_store_literal_closed;
use rnix_normalize::{canonicalize, parse_path, Anchor};

fn canon(p: &str) -> String {
    canonicalize(p.to_string())
}

#[test]
fn test_canonicalize_plain() {
    assert_eq!(canon("/foo/bar"), "/foo/bar");
    assert_eq!(canon("foo/bar"), "foo/bar");
}

#[test]
fn test_canonicalize_drops_cur_dir_and_empty_segments() {
    assert_eq!(canon("/foo/./bar"), "/foo/bar");
    assert_eq!(canon("/foo//bar"), "/foo/bar");
    assert_eq!(canon("./foo"), "foo");
    assert_eq!(canon("/base/./."), "/base");
}

#[test]
fn test_canonicalize_parent_dir() {
    assert_eq!(canon("/foo/bar/.."), "/foo");
    assert_eq!(canon("/foo/../bar"), "/bar");
    assert_eq!(canon("a/b/../../c"), "c");
}

#[test]
fn test_canonicalize_never_rises_above_the_root() {
    assert_eq!(canon("/.."), "/");
    assert_eq!(canon("/../a"), "/a");
    assert_eq!(canon("/a/../../b"), "/b");
    assert_eq!(canon("../a"), "a");
}

#[test]
fn test_canonicalize_keeps_trailing_slash() {
    assert_eq!(canon("/foo/"), "/foo/");
    assert_eq!(canon("/foo/bar/../"), "/foo/");
    assert_eq!(canon("foo/"), "foo/");
}

#[test]
fn test_canonicalize_empty_result_is_root() {
    assert_eq!(canon(""), "/");
    assert_eq!(canon("/"), "/");
    assert_eq!(canon("."), "/");
    assert_eq!(canon("a/.."), "/");
    assert_eq!(canon("//"), "/");
    assert_eq!(canon("./"), "/");
}

#[test]
fn test_canonicalize_keeps_dotted_names() {
    assert_eq!(canon("/a/.../b"), "/a/.../b");
    assert_eq!(canon("/a/.b/c."), "/a/.b/c.");
    assert_eq!(canon("/a/..b"), "/a/..b");
}

#[test]
fn test_canonicalize_non_ascii() {
    assert_eq!(canon("/é/ü/../ß"), "/é/ß");
}

#[test]
fn test_canonicalize_is_idempotent() {
    for p in ["", "/", "a", "/a/b/", "a/../..", "/../x/./y//z/", "./.", "x/"] {
        let once = canon(p);
        assert_eq!(canon(&once), once);
    }
}

#[test]
fn test_parse_path_store() {
    assert_eq!(parse_path("<foo/bar>".to_string()), (Anchor::Store, "foo/bar".to_string()));
    assert_eq!(parse_path("<>".to_string()), (Anchor::Store, "".to_string()));
    assert_eq!(parse_path("<ñ>".to_string()), (Anchor::Store, "ñ".to_string()));
}

#[test]
fn test_parse_path_home() {
    assert_eq!(parse_path("~/foo/bar".to_string()), (Anchor::Home, "foo/bar".to_string()));
    assert_eq!(parse_path("~/".to_string()), (Anchor::Home, "".to_string()));
}

#[test]
fn test_parse_path_absolute() {
    assert_eq!(parse_path("/foo/bar".to_string()), (Anchor::Absolute, "/foo/bar".to_string()));
}

#[test]
fn test_parse_path_relative() {
    assert_eq!(parse_path("foo/bar".to_string()), (Anchor::Relative, "foo/bar".to_string()));
    assert_eq!(parse_path("./foo".to_string()), (Anchor::Relative, "./foo".to_string()));
    assert_eq!(parse_path("~".to_string()), (Anchor::Relative, "~".to_string()));
    assert_eq!(parse_path("".to_string()), (Anchor::Relative, "".to_string()));
}

#[test]
fn test_is_store_literal_closed() {
    assert!(is_store_literal_closed("<a>"));
    assert!(is_store_literal_closed("<>"));
    assert!(is_store_literal_closed("a"));
    assert!(is_store_literal_closed(""));
    assert!(!is_store_literal_closed("<"));
    assert!(!is_store_literal_closed("<a"));
}

#[test]
fn test_bracketed_name() {
    assert_eq!(bracketed_name("<nixos/lib>"), Some("nixos/lib".to_string()));
    assert_eq!(bracketed_name("<>"), Some("".to_string()));
    assert_eq!(bracketed_name("<"), None);
    assert_eq!(bracketed_name("<a"), None);
    assert_eq!(bracketed_name("a>"), None);
    assert_eq!(bracketed_name("plain/file.nix"), None);
    assert_eq!(bracketed_name(""), None);
}

#[test]
fn test_path_to_nixpkgs() {
    assert_eq!(
        path_to_nixpkgs("home=/h:nixpkgs=/nix/var/nixpkgs:nixpkgs=/other"),
        Some("/nix/var/nixpkgs".to_string())
    );
    assert_eq!(path_to_nixpkgs("nixpkgs="), Some("".to_string()));
    assert_eq!(path_to_nixpkgs("nixpkgs=/a"), Some("/a".to_string()));
    assert_eq!(path_to_nixpkgs("/a:/b"), None);
    assert_eq!(path_to_nixpkgs(""), None);
    assert_eq!(path_to_nixpkgs("xnixpkgs=/a:nixpkgs"), None);
}

#[test]
fn test_split_chars() {
    let split = |s: &str| -> Vec<String> {
        split_chars(&s.chars().collect(), ':').into_iter().map(|v| v.into_iter().collect()).collect()
    };
    assert_eq!(split(""), vec![""]);
    assert_eq!(split("a"), vec!["a"]);
    assert_eq!(split("a:b"), vec!["a", "b"]);
    assert_eq!(split(":a::b:"), vec!["", "a", "", "b", ""]);
}

#[test]
fn test_has_prefix_and_chars_from() {
    let v = |s: &str| -> Vec<char> { s.chars().collect() };
    assert!(has_prefix(&v("abc"), &v("ab")));
    assert!(has_prefix(&v("abc"), &v("")));
    assert!(has_prefix(&v("abc"), &v("abc")));
    assert!(!has_prefix(&v("abc"), &v("abcd")));
    assert!(!has_prefix(&v("abc"), &v("b")));
    assert_eq!(chars_from(&v("abc"), 1), v("bc"));
    assert_eq!(chars_from(&v("abc"), 3), v(""));
}

#[test]
fn test_canonical_paths_have_plain_segments() {
    for p in ["/a/./b/../c//d/", "x/../../y/.", "/../..", "a//b/./", "/é/../ü"] {
        let c = canon(p);
        assert_eq!(c.starts_with('/'), p.starts_with('/') || c == "/");
        if c != "/" {
            assert_eq!(c.ends_with('/'), p.ends_with('/'));
            let inner = c.strip_prefix('/').unwrap_or(&c);
            let inner = inner.strip_suffix('/').unwrap_or(inner);
            for segment in inner.split('/') {
                assert!(!segment.is_empty() && segment != "." && segment != "..");
            }
        }
    }
}
