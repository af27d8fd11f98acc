//! The error model: kinds, messages, chains.

use pathrs::error::{Error, ErrorImpl, ErrorKind, SymlinkStackError};

#[test]
fn each_variant_has_its_kind_and_message() {
    let cases = [
        (Error::not_implemented("hardlinks"), ErrorKind::NotImplemented, "feature hardlinks is not implemented"),
        (Error::not_supported("openat2"), ErrorKind::NotSupported, "feature openat2 not supported on this kernel"),
        (
            Error::invalid_argument("path", "path is empty"),
            ErrorKind::InvalidArgument,
            "invalid path argument: path is empty",
        ),
        (
            Error::safety_violation("escape"),
            ErrorKind::SafetyViolation,
            "violation of safety requirement: escape",
        ),
        (
            Error::bad_symlink_stack("lost", SymlinkStackError::BrokenInvariant),
            ErrorKind::BadSymlinkStack,
            "broken symlink stack during iteration: lost",
        ),
        (Error::os_error("walk", 40), ErrorKind::OsError(Some(40)), "walk failed"),
        (Error::raw_os_error("openat", 2), ErrorKind::OsError(Some(2)), "openat failed"),
    ];
    for (error, kind, message) in cases {
        assert_eq!(error.kind(), kind);
        assert_eq!(error.message(), message);
    }
    let unknown = Error::new(ErrorImpl::OsError { operation: "x".to_string(), errno: None });
    assert_eq!(unknown.kind(), ErrorKind::OsError(None));
}

#[test]
fn kind_of_wrapped_error_is_kind_of_cause() {
    let error = Error::raw_os_error("open", 2).wrap("inner context").wrap("outer context");
    assert_eq!(error.kind(), ErrorKind::OsError(Some(2)));
    assert_eq!(error.message(), "outer context");
    let error = Error::safety_violation("x").with_wrap("context".to_string());
    assert_eq!(error.kind(), ErrorKind::SafetyViolation);
}

#[test]
fn chain_goes_from_the_error_to_its_cause() {
    let error = Error::raw_os_error("open", 2).wrap("inner").wrap("outer");
    let mut chain = error.iter_chain_hotfix();
    let mut messages = Vec::new();
    while let Some(link) = chain.next() {
        messages.push(link.message());
    }
    assert_eq!(messages, ["outer", "inner", "open failed"]);
    assert!(chain.next().is_none());

    let single = Error::not_supported("x");
    let mut chain = single.iter_chain_hotfix();
    assert!(matches!(chain.next(), Some(ErrorImpl::NotSupported { .. })));
    assert!(chain.next().is_none());
}

#[test]
fn source_is_what_an_error_wraps() {
    let inner = ErrorImpl::SafetyViolation { description: "x".to_string() };
    assert!(inner.source().is_none());
    let outer = inner.wrap("context");
    assert!(matches!(outer.source(), Some(ErrorImpl::SafetyViolation { .. })));
    assert_eq!(outer.kind(), ErrorKind::SafetyViolation);
}

#[test]
fn from_makes_an_error_of_one_link() {
    let error = Error::from(ErrorImpl::NotImplemented { feature: "f".to_string() });
    assert_eq!(error.kind(), ErrorKind::NotImplemented);
    assert_eq!(error.iter_chain_hotfix().next().unwrap().message(), "feature f is not implemented");
}

#[test]
fn broken_stack_leaves_the_resolver_as_a_safety_violation() {
    let error = Error::bad_symlink_stack("lost", SymlinkStackError::CounterOverflow).at_boundary();
    assert_eq!(error.kind(), ErrorKind::SafetyViolation);
    assert_eq!(error.message(), "violation of safety requirement: lost");
    let kept = Error::os_error("walk", 40).at_boundary();
    assert_eq!(kept.kind(), ErrorKind::OsError(Some(40)));
    let wrapped = Error::bad_symlink_stack("lost", SymlinkStackError::CounterOverflow)
        .wrap("context")
        .at_boundary();
    assert_eq!(wrapped.kind(), ErrorKind::BadSymlinkStack);
}
