//! The error model: the kinds of failure, and the chain of contexts that the
//! layers of the library wrap around the innermost cause.

use vstd::prelude::*;
use vstd::string::StringExecFns;

verus! {

/// What went wrong inside the symlink stack.
#[derive(Debug, Clone, Copy, PartialEq, Eq)]
pub enum SymlinkStackError {
    /// A counter of the stack would have left the range of its type.
    CounterOverflow,
    /// Pushing the frame would exceed the symlink-expansion budget.
    TooManyFrames,
    /// Pushing the frame would exceed the path-length budget.
    TooManyBytes,
    /// The frames no longer satisfy the invariants of the stack.
    BrokenInvariant,
}

/// The observable kind of an [`Error`].
#[derive(Debug, PartialEq, Eq, Clone, Copy)]
#[non_exhaustive]
pub enum ErrorKind {
    NotImplemented,
    NotSupported,
    InvalidArgument,
    SafetyViolation,
    BadSymlinkStack,
    /// A kernel error, with the `errno` it came with where there was one.
    OsError(Option<i32>),
}

/// One link of an error chain.
#[derive(Debug)]
#[allow(inconsistent_fields)]
pub enum ErrorImpl {
    NotImplemented { feature: String },
    NotSupported { feature: String },
    InvalidArgument { name: String, description: String },
    SafetyViolation { description: String },
    BadSymlinkStackError { description: String, source: SymlinkStackError },
    /// A failure that the library itself reports in the kernel's terms.
    OsError { operation: String, errno: Option<i32> },
    /// A failure that a system call came back with.
    RawOsError { operation: String, errno: Option<i32> },
    /// Another error, with the context in which it happened.
    Wrapped { context: String, source: Box<ErrorImpl> },
}

/// The mathematical content of an [`ErrorImpl`]: the same tree, with
/// sequences of characters for strings.
#[allow(inconsistent_fields)]
pub enum ErrorView {
    NotImplemented { feature: Seq<char> },
    NotSupported { feature: Seq<char> },
    InvalidArgument { name: Seq<char>, description: Seq<char> },
    SafetyViolation { description: Seq<char> },
    BadSymlinkStackError { description: Seq<char>, source: SymlinkStackError },
    OsError { operation: Seq<char>, errno: Option<i32> },
    RawOsError { operation: Seq<char>, errno: Option<i32> },
    Wrapped { context: Seq<char>, source: Box<ErrorView> },
}

impl ErrorView {
    /// The kind of the innermost cause.
    pub open spec fn kind(self) -> ErrorKind
        decreases self,
    {
        match self {
            ErrorView::NotImplemented { .. } => ErrorKind::NotImplemented,
            ErrorView::NotSupported { .. } => ErrorKind::NotSupported,
            ErrorView::InvalidArgument { .. } => ErrorKind::InvalidArgument,
            ErrorView::SafetyViolation { .. } => ErrorKind::SafetyViolation,
            ErrorView::BadSymlinkStackError { .. } => ErrorKind::BadSymlinkStack,
            ErrorView::OsError { errno, .. } => ErrorKind::OsError(errno),
            ErrorView::RawOsError { errno, .. } => ErrorKind::OsError(errno),
            ErrorView::Wrapped { source, .. } => source.kind(),
        }
    }

    /// The error that this one wraps, if it wraps one.
    pub open spec fn source(self) -> Option<ErrorView> {
        match self {
            ErrorView::Wrapped { source, .. } => Some(*source),
            _ => None,
        }
    }

    /// The chain from this error inwards: the error itself, then what it
    /// wraps, down to the innermost cause.
    pub open spec fn chain(self) -> Seq<ErrorView>
        decreases self,
    {
        match self {
            ErrorView::Wrapped { source, .. } => seq![self] + source.chain(),
            _ => seq![self],
        }
    }

    /// The head message of this link.
    pub open spec fn message(self) -> Seq<char> {
        match self {
            ErrorView::NotImplemented { feature } => "feature "@ + feature + " is not implemented"@,
            ErrorView::NotSupported { feature } => "feature "@ + feature
                + " not supported on this kernel"@,
            ErrorView::InvalidArgument { name, description } => "invalid "@ + name + " argument: "@
                + description,
            ErrorView::SafetyViolation { description } => "violation of safety requirement: "@
                + description,
            ErrorView::BadSymlinkStackError { description, .. } =>
                "broken symlink stack during iteration: "@ + description,
            ErrorView::OsError { operation, .. } => operation + " failed"@,
            ErrorView::RawOsError { operation, .. } => operation + " failed"@,
            ErrorView::Wrapped { context, .. } => context,
        }
    }
}

impl View for ErrorImpl {
    type V = ErrorView;

    open spec fn view(&self) -> ErrorView {
        self.links()
    }
}

impl ErrorImpl {
    /// The links of this error as a mathematical tree.
    pub open spec fn links(&self) -> ErrorView
        decreases self,
    {
        match self {
            ErrorImpl::NotImplemented { feature } => ErrorView::NotImplemented { feature: feature@ },
            ErrorImpl::NotSupported { feature } => ErrorView::NotSupported { feature: feature@ },
            ErrorImpl::InvalidArgument { name, description } => ErrorView::InvalidArgument {
                name: name@,
                description: description@,
            },
            ErrorImpl::SafetyViolation { description } => ErrorView::SafetyViolation {
                description: description@,
            },
            ErrorImpl::BadSymlinkStackError { description, source } =>
                ErrorView::BadSymlinkStackError { description: description@, source: *source },
            ErrorImpl::OsError { operation, errno } => ErrorView::OsError {
                operation: operation@,
                errno: *errno,
            },
            ErrorImpl::RawOsError { operation, errno } => ErrorView::RawOsError {
                operation: operation@,
                errno: *errno,
            },
            ErrorImpl::Wrapped { context, source } => ErrorView::Wrapped {
                context: context@,
                source: Box::new(source.links()),
            },
        }
    }

    /// The kind of the innermost cause of this error.
    pub fn kind(&self) -> (kind: ErrorKind)
        ensures
            kind == self@.kind(),
        decreases self,
    {
        match self {
            ErrorImpl::NotImplemented { .. } => ErrorKind::NotImplemented,
            ErrorImpl::NotSupported { .. } => ErrorKind::NotSupported,
            ErrorImpl::InvalidArgument { .. } => ErrorKind::InvalidArgument,
            ErrorImpl::SafetyViolation { .. } => ErrorKind::SafetyViolation,
            ErrorImpl::BadSymlinkStackError { .. } => ErrorKind::BadSymlinkStack,
            ErrorImpl::OsError { errno, .. } => ErrorKind::OsError(*errno),
            ErrorImpl::RawOsError { errno, .. } => ErrorKind::OsError(*errno),
            ErrorImpl::Wrapped { source, .. } => source.kind(),
        }
    }

    /// The error that this one wraps, if it wraps one.
    pub fn source(&self) -> (inner: Option<&ErrorImpl>)
        ensures
            match inner {
                Some(e) => self@.source() == Some(e@),
                None => self@.source().is_none(),
            },
    {
        match self {
            ErrorImpl::Wrapped { source, .. } => Some(&**source),
            _ => None,
        }
    }

    /// Puts this error inside a new link that says in which context it
    /// happened.
    pub fn with_wrap(self, context: String) -> (wrapped: ErrorImpl)
        ensures
            wrapped@ == (ErrorView::Wrapped { context: context@, source: Box::new(self@) }),
    {
        ErrorImpl::Wrapped { context, source: Box::new(self) }
    }

    /// [`ErrorImpl::with_wrap`] for a context that is a string slice.
    pub fn wrap(self, context: &str) -> (wrapped: ErrorImpl)
        ensures
            wrapped@ == (ErrorView::Wrapped { context: context@, source: Box::new(self@) }),
    {
        self.with_wrap(String::from_str(context))
    }

    /// The head message of this link: what the error says of itself, without
    /// what it wraps.
    pub fn message(&self) -> (text: String)
        ensures
            text@ == self@.message(),
    {
        match self {
            ErrorImpl::NotImplemented { feature } => {
                String::from_str("feature ").concat(feature.as_str()).concat(" is not implemented")
            },
            ErrorImpl::NotSupported { feature } => {
                String::from_str("feature ").concat(feature.as_str()).concat(
                    " not supported on this kernel",
                )
            },
            ErrorImpl::InvalidArgument { name, description } => {
                String::from_str("invalid ").concat(name.as_str()).concat(" argument: ").concat(
                    description.as_str(),
                )
            },
            ErrorImpl::SafetyViolation { description } => {
                String::from_str("violation of safety requirement: ").concat(description.as_str())
            },
            ErrorImpl::BadSymlinkStackError { description, .. } => {
                String::from_str("broken symlink stack during iteration: ").concat(
                    description.as_str(),
                )
            },
            ErrorImpl::OsError { operation, .. } => operation.clone().concat(" failed"),
            ErrorImpl::RawOsError { operation, .. } => operation.clone().concat(" failed"),
            ErrorImpl::Wrapped { context, .. } => context.clone(),
        }
    }
}

/// An error of the library: a chain of [`ErrorImpl`] links, outermost first.
#[derive(Debug)]
pub struct Error(pub Box<ErrorImpl>);

impl View for Error {
    type V = ErrorView;

    open spec fn view(&self) -> ErrorView {
        self.0@
    }
}

impl From<ErrorImpl> for Error {
    fn from(err: ErrorImpl) -> (error: Error) {
        Error(Box::new(err))
    }
}

impl vstd::std_specs::convert::FromSpecImpl<ErrorImpl> for Error {
    open spec fn obeys_from_spec() -> bool {
        true
    }

    open spec fn from_spec(err: ErrorImpl) -> Error {
        Error(Box::new(err))
    }
}

/// The links of an error that are still to be visited, outermost first.
pub struct Chain<'a> {
    current: Option<&'a ErrorImpl>,
}

impl<'a> View for Chain<'a> {
    type V = Seq<ErrorView>;

    closed spec fn view(&self) -> Seq<ErrorView> {
        match self.current {
            Some(e) => e@.chain(),
            None => Seq::empty(),
        }
    }
}

impl<'a> Chain<'a> {
    /// Hands out the next link and moves on to what it wraps.
    pub fn next(&mut self) -> (link: Option<&'a ErrorImpl>)
        ensures
            match link {
                Some(e) => old(self)@.len() > 0 && e@ == old(self)@[0] && final(self)@ == old(
                    self,
                )@.skip(1),
                None => old(self)@.len() == 0 && final(self)@.len() == 0,
            },
    {
        let current = self.current;
        match current {
            Some(e) => {
                self.current = e.source();
                proof {
                    assert(e@.chain().skip(1) =~= match e@.source() {
                        Some(s) => s.chain(),
                        None => Seq::empty(),
                    });
                }
            },
            None => {},
        }
        current
    }
}

impl ErrorView {
    /// A failure that the library reports in the kernel's terms.
    pub open spec fn os(operation: Seq<char>, errno: i32) -> ErrorView {
        ErrorView::OsError { operation, errno: Some(errno) }
    }

    /// A failure that a system call came back with.
    pub open spec fn raw_os(operation: Seq<char>, errno: i32) -> ErrorView {
        ErrorView::RawOsError { operation, errno: Some(errno) }
    }

    /// A violation of a safety requirement.
    pub open spec fn safety(description: Seq<char>) -> ErrorView {
        ErrorView::SafetyViolation { description }
    }

    /// An argument that breaks the caller's side of a contract.
    pub open spec fn invalid(name: Seq<char>, description: Seq<char>) -> ErrorView {
        ErrorView::InvalidArgument { name, description }
    }

    /// A failure of the symlink stack.
    pub open spec fn bad_stack(description: Seq<char>, source: SymlinkStackError) -> ErrorView {
        ErrorView::BadSymlinkStackError { description, source }
    }

    /// This error inside a link that names the context.
    pub open spec fn wrap(self, context: Seq<char>) -> ErrorView {
        ErrorView::Wrapped { context, source: Box::new(self) }
    }

    /// This error as it leaves the resolver: a failure of the symlink stack
    /// is a violation of a safety requirement.
    pub open spec fn at_boundary(self) -> ErrorView {
        match self {
            ErrorView::BadSymlinkStackError { description, .. } => ErrorView::SafetyViolation {
                description,
            },
            _ => self,
        }
    }
}

impl Error {
    /// A failure that the library reports in the kernel's terms.
    pub fn os_error(operation: &str, errno: i32) -> (error: Error)
        ensures
            error@ == ErrorView::os(operation@, errno),
    {
        Error::new(ErrorImpl::OsError { operation: String::from_str(operation), errno: Some(errno) })
    }

    /// A failure that a system call came back with.
    pub fn raw_os_error(operation: &str, errno: i32) -> (error: Error)
        ensures
            error@ == ErrorView::raw_os(operation@, errno),
    {
        Error::new(
            ErrorImpl::RawOsError { operation: String::from_str(operation), errno: Some(errno) },
        )
    }

    /// A violation of a safety requirement.
    pub fn safety_violation(description: &str) -> (error: Error)
        ensures
            error@ == ErrorView::safety(description@),
    {
        Error::new(ErrorImpl::SafetyViolation { description: String::from_str(description) })
    }

    /// An argument that breaks the caller's side of a contract.
    pub fn invalid_argument(name: &str, description: &str) -> (error: Error)
        ensures
            error@ == ErrorView::invalid(name@, description@),
    {
        Error::new(
            ErrorImpl::InvalidArgument {
                name: String::from_str(name),
                description: String::from_str(description),
            },
        )
    }

    /// A failure of the symlink stack.
    pub fn bad_symlink_stack(description: &str, source: SymlinkStackError) -> (error: Error)
        ensures
            error@ == ErrorView::bad_stack(description@, source),
    {
        Error::new(
            ErrorImpl::BadSymlinkStackError { description: String::from_str(description), source },
        )
    }

    /// A feature that the kernel lacks.
    pub fn not_supported(feature: &str) -> (error: Error)
        ensures
            error@ == (ErrorView::NotSupported { feature: feature@ }),
    {
        Error::new(ErrorImpl::NotSupported { feature: String::from_str(feature) })
    }

    /// A feature that the library declines.
    pub fn not_implemented(feature: &str) -> (error: Error)
        ensures
            error@ == (ErrorView::NotImplemented { feature: feature@ }),
    {
        Error::new(ErrorImpl::NotImplemented { feature: String::from_str(feature) })
    }

    /// This error as it leaves the resolver: a failure of the symlink stack
    /// becomes a violation of a safety requirement, with the same
    /// description; every other error stays as it is.
    pub fn at_boundary(self) -> (error: Error)
        ensures
            error@ == self@.at_boundary(),
    {
        let Error(inner) = self;
        match *inner {
            ErrorImpl::BadSymlinkStackError { description, source: _ } => Error::new(
                ErrorImpl::SafetyViolation { description },
            ),
            other => Error::new(other),
        }
    }

    /// Makes an error of one link.
    pub fn new(err: ErrorImpl) -> (error: Error)
        ensures
            error@ == err@,
    {
        Error(Box::new(err))
    }

    /// The kind of the innermost cause of this error.
    pub fn kind(&self) -> (kind: ErrorKind)
        ensures
            kind == self@.kind(),
    {
        self.0.kind()
    }

    /// Puts this error inside a new link that says in which context it
    /// happened.
    pub fn with_wrap(self, context: String) -> (wrapped: Error)
        ensures
            wrapped@ == (ErrorView::Wrapped { context: context@, source: Box::new(self@) }),
    {
        let Error(inner) = self;
        Error(Box::new((*inner).with_wrap(context)))
    }

    /// [`Error::with_wrap`] for a context that is a string slice.
    pub fn wrap(self, context: &str) -> (wrapped: Error)
        ensures
            wrapped@ == (ErrorView::Wrapped { context: context@, source: Box::new(self@) }),
    {
        self.with_wrap(String::from_str(context))
    }

    /// The head message of the error.
    pub fn message(&self) -> (text: String)
        ensures
            text@ == self@.message(),
    {
        self.0.message()
    }

    /// The chain of this error, from the error itself to its innermost
    /// cause.
    pub fn iter_chain_hotfix(&self) -> (chain: Chain<'_>)
        ensures
            chain@ == self@.chain(),
            chain@.len() > 0,
            chain@[0] == self@,
    {
        Chain { current: Some(&*self.0) }
    }
}

} // verus!
