//! Resolve, then act: the lookup of the directory in which an operation
//! acts, and of the single name on which it acts there.

use vstd::prelude::*;
use crate::error::{Error, ErrorView};
use crate::path::{empty_path_error, parent_and_name, path_split};
use crate::resolver::{Resolution, ResolutionView, Resolver};
use crate::step::{Next, NextView, Step, StepView};
use crate::sys::{Reply, ReplyView};

verus! {

/// What a lookup finds: a handle to the parent directory, which the finder
/// owns, and the trailing name. There is no name where the path ended in a
/// separator.
#[derive(Debug)]
pub struct Parent {
    pub dir: i32,
    pub name: Option<Vec<u8>>,
}

/// The mathematical content of a [`Parent`].
pub struct ParentView {
    pub dir: i32,
    pub name: Option<Seq<u8>>,
}

/// The bytes of an optional name.
pub open spec fn name_of(name: Option<Vec<u8>>) -> Option<Seq<u8>> {
    match name {
        Some(bytes) => Some(bytes@),
        None => None,
    }
}

impl View for Parent {
    type V = ParentView;

    open spec fn view(&self) -> ParentView {
        ParentView { dir: self.dir, name: name_of(self.name) }
    }
}

/// The lookup of a parent directory.
#[derive(Debug)]
pub struct ParentLookup {
    invalid: bool,
    over: bool,
    resolution: Resolution,
    name: Option<Vec<u8>>,
}

/// The mathematical content of a [`ParentLookup`].
pub struct ParentLookupView {
    /// Whether the path could not be split.
    pub invalid: bool,
    pub over: bool,
    /// The resolution of the parent.
    pub resolution: ResolutionView,
    /// The trailing name.
    pub name: Option<Seq<u8>>,
}

impl ParentLookupView {
    /// The state in which the lookup for `path` in `root` begins.
    pub open spec fn start(
        resolver: Resolver,
        root: i32,
        path: Seq<u8>,
    ) -> ParentLookupView {
        if path.len() == 0 {
            ParentLookupView {
                invalid: true,
                over: false,
                resolution: ResolutionView::start(resolver, root, Seq::empty(), false),
                name: None,
            }
        } else {
            ParentLookupView {
                invalid: false,
                over: false,
                resolution: ResolutionView::start(resolver, root, parent_and_name(path).0, false),
                name: parent_and_name(path).1,
            }
        }
    }

    /// The move that the lookup makes on a reply: those of the resolution
    /// of the parent, which follows a symlink at its end. An error of the
    /// resolution comes in the context of resolving the parent directory;
    /// a path that cannot be split fails at once.
    pub open spec fn step(self, reply: ReplyView) -> (ParentLookupView, StepView<ParentView>) {
        if self.over {
            (
                self,
                StepView::failed(
                    Seq::empty(),
                    ErrorView::invalid("reply"@, "the operation is over"@),
                ),
            )
        } else if self.invalid {
            (
                ParentLookupView { over: true, ..self },
                StepView::failed(
                    Seq::empty(),
                    empty_path_error().wrap("split path into (parent, name)"@),
                ),
            )
        } else {
            let (resolution, step) = self.resolution.step(reply);
            match step.next {
                NextView::Call(call) => (
                    ParentLookupView { resolution, ..self },
                    StepView::call(step.retired, call),
                ),
                NextView::Done(Ok(dir)) => (
                    ParentLookupView { resolution, over: true, name: None, ..self },
                    StepView::done(step.retired, ParentView { dir, name: self.name }),
                ),
                NextView::Done(Err(error)) => (
                    ParentLookupView { resolution, over: true, ..self },
                    StepView::failed(step.retired, error.wrap("resolve parent directory"@)),
                ),
            }
        }
    }
}

impl View for ParentLookup {
    type V = ParentLookupView;

    closed spec fn view(&self) -> ParentLookupView {
        ParentLookupView {
            invalid: self.invalid,
            over: self.over,
            resolution: self.resolution@,
            name: name_of(self.name),
        }
    }
}

impl ParentLookup {
    /// Whether the lookup is in order.
    pub closed spec fn wf(&self) -> bool {
        self.resolution.wf()
    }

    /// A lookup of the parent of `path` in the directory that `root` refers
    /// to.
    pub fn new(resolver: &Resolver, root: i32, path: &[u8]) -> (lookup: ParentLookup)
        ensures
            lookup.wf(),
            lookup@ == ParentLookupView::start(*resolver, root, path@),
    {
        match path_split(path) {
            Ok((parent, name)) => {
                ParentLookup {
                    invalid: false,
                    over: false,
                    resolution: resolver.resolve(root, parent.as_slice(), false),
                    name,
                }
            },
            Err(_) => {
                let nothing: Vec<u8> = Vec::new();
                ParentLookup {
                    invalid: true,
                    over: false,
                    resolution: resolver.resolve(root, nothing.as_slice(), false),
                    name: None,
                }
            },
        }
    }

    /// Makes the next move of the lookup.
    pub fn step(&mut self, reply: Reply) -> (step: Step<Parent>)
        requires
            old(self).wf(),
        ensures
            final(self).wf(),
            (final(self)@, step@) == old(self)@.step(reply@),
    {
        if self.over {
            return Step {
                retired: Vec::new(),
                next: Next::Done(Err(Error::invalid_argument("reply", "the operation is over"))),
            };
        }
        if self.invalid {
            self.over = true;
            return Step {
                retired: Vec::new(),
                next: Next::Done(
                    Err(
                        Error::invalid_argument("path", "path is empty").wrap(
                            "split path into (parent, name)",
                        ),
                    ),
                ),
            };
        }
        let Step { retired, next } = self.resolution.step(reply);
        match next {
            Next::Call(call) => Step { retired, next: Next::Call(call) },
            Next::Done(Ok(handle)) => {
                self.over = true;
                let name = self.name.take();
                Step { retired, next: Next::Done(Ok(Parent { dir: handle.into_fd(), name })) }
            },
            Next::Done(Err(error)) => {
                self.over = true;
                Step { retired, next: Next::Done(Err(error.wrap("resolve parent directory"))) }
            },
        }
    }
}

} // verus!
