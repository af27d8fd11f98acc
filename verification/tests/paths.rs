//! Paths: components, the split into parent and name, containment.

use pathrs::error::ErrorKind;
use pathrs::path::{
    copy_bytes, is_absolute, is_dot, is_dotdot, is_within, path_split, raw_components, same_bytes,
    same_str,
};

fn components(path: &str) -> Vec<String> {
    raw_components(path.as_bytes())
        .into_iter()
        .map(|c| String::from_utf8(c).unwrap())
        .collect()
}

#[test]
fn raw_components_keep_empty_components() {
    assert_eq!(components("a/b/c"), ["a", "b", "c"]);
    assert_eq!(components("/a//b/"), ["", "a", "", "b", ""]);
    assert_eq!(components(""), [""]);
    assert_eq!(components("/"), ["", ""]);
    assert_eq!(components("./.."), [".", ".."]);
    assert_eq!(components("name"), ["name"]);
}

#[test]
fn raw_components_joined_give_the_path() {
    for path in ["", "/", "a", "a/b", "//a/./b//", "../x/"] {
        let joined = raw_components(path.as_bytes()).join(&b'/');
        assert_eq!(joined, path.as_bytes());
        assert!(raw_components(path.as_bytes()).iter().all(|c| !c.contains(&b'/')));
    }
}

fn split(path: &str) -> (String, Option<String>) {
    let (parent, name) = path_split(path.as_bytes()).expect("the path is not empty");
    (String::from_utf8(parent).unwrap(), name.map(|n| String::from_utf8(n).unwrap()))
}

#[test]
fn path_split_finds_parent_and_name() {
    assert_eq!(split("a/b/c"), ("a/b".to_string(), Some("c".to_string())));
    assert_eq!(split("name"), (".".to_string(), Some("name".to_string())));
    assert_eq!(split("/name"), ("/".to_string(), Some("name".to_string())));
    assert_eq!(split("a/b/"), ("a/b".to_string(), None));
    assert_eq!(split("/"), ("/".to_string(), None));
    assert_eq!(split("a//b"), ("a/".to_string(), Some("b".to_string())));
    assert_eq!(split("a/.."), ("a".to_string(), Some("..".to_string())));
    assert_eq!(split("//"), ("/".to_string(), None));
}

#[test]
fn path_split_refuses_the_empty_path() {
    let error = path_split(b"").expect_err("nothing to split");
    assert_eq!(error.kind(), ErrorKind::InvalidArgument);
    assert_eq!(error.message(), "invalid path argument: path is empty");
}

#[test]
fn containment_goes_by_whole_components() {
    assert!(is_within(b"/tmp/r", b"/tmp/r"));
    assert!(is_within(b"/tmp/r", b"/tmp/r/a/b"));
    assert!(!is_within(b"/tmp/r", b"/tmp/rx"));
    assert!(!is_within(b"/tmp/r", b"/tmp"));
    assert!(!is_within(b"/tmp/r", b"/etc/passwd"));
    assert!(is_within(b"/", b"/etc/passwd"));
    assert!(is_within(b"/", b"/"));
    assert!(!is_within(b"", b"/tmp"));
    assert!(!is_within(b"/tmp/r", b""));
    assert!(is_within(b"/tmp/r/", b"/tmp/r/a"));
}

#[test]
fn names_are_told_apart() {
    assert!(is_dot(b"."));
    assert!(!is_dot(b".."));
    assert!(!is_dot(b""));
    assert!(is_dotdot(b".."));
    assert!(!is_dotdot(b"."));
    assert!(!is_dotdot(b"..."));
    assert!(is_absolute(b"/a"));
    assert!(!is_absolute(b"a/"));
    assert!(!is_absolute(b""));
    assert!(same_bytes(b"abc", b"abc"));
    assert!(!same_bytes(b"abc", b"abd"));
    assert!(!same_bytes(b"abc", b"ab"));
    assert!(same_str("abc", "abc"));
    assert!(!same_str("abc", "abd"));
    assert_eq!(copy_bytes(b"abc"), b"abc".to_vec());
}
