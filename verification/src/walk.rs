//! The emulated resolver: a walk through a path, one component at a time,
//! by handle-relative system calls that follow no symlink on their own.
//!
//! The walk holds a handle to the directory it stands in. Each named
//! component is opened relative to that handle and classified; a directory
//! becomes the new current directory once the kernel has confirmed that it
//! lies within the root; a symlink is expanded in place, under the control
//! of the [symlink stack](crate::symlink_stack); anything else may only end
//! the path.

use vstd::prelude::*;
use crate::error::{Error, ErrorView, SymlinkStackError};
use crate::flags::ResolverFlags;
use crate::handle::Handle;
use crate::path::{
    absolute, copy_bytes, dot, dotdot, is_absolute, is_dot, is_dotdot, is_within, raw_components,
    split, within, PERIOD,
};
use crate::step::{held, release, Next, Step, StepView};
use crate::symlink_stack::{
    ComponentKind, DotDot, StackView, SymlinkStack, MAX_EXPANDED_BYTES, MAX_SYMLINK_FRAMES,
};
use crate::sys::{
    kind_of_mode, names_of, o_path_nofollow, enoent, enotdir, eloop, FileKind, InodeId, Reply,
    ReplyView, Syscall, SyscallView, ELOOP, ENOENT, ENOTDIR, O_PATH_NOFOLLOW,
};

verus! {

/// How many ancestors the containment check looks at, where the kernel
/// reports no paths, before it gives up.
pub const MAX_ANCESTORS: usize = 4096;

/// Where a walk stands: which answer it waits for.
#[derive(Debug, Clone, Copy, PartialEq, Eq)]
pub enum Phase {
    /// Nothing was asked yet.
    Start,
    /// The identity of the root was asked for.
    RootStat,
    /// A duplicate of the root handle was asked for, to start from.
    RootDup,
    /// The next component is being opened.
    Open,
    /// What was opened is being classified.
    Stat,
    /// The target of a symlink is being read.
    Target,
    /// A duplicate of the root handle was asked for, to restart from after
    /// an absolute symlink.
    Reset,
    /// The containment check asked for the path of the root.
    RootPath,
    /// The containment check asked for the path of what was opened.
    CandidatePath,
    /// The containment check is opening the next ancestor.
    AncestorOpen,
    /// The containment check is identifying an ancestor.
    AncestorStat,
    /// The walk is over.
    Finished,
}

/// How the walk knows that its current handle lies within the root.
#[derive(Debug, Clone, Copy, PartialEq, Eq)]
pub enum Contained {
    /// It holds no handle yet.
    Unchecked,
    /// The handle is a duplicate of the root handle.
    Duplicate,
    /// The path that the kernel reported for the handle lies within the
    /// path that it reported for the root.
    ByPath,
    /// The walk up from the handle reached the root.
    ByAncestry,
    /// The handle is no directory, and was opened in a directory that lies
    /// within the root.
    ByParent,
}

/// What a walk ends with: the handle it has reached and the components
/// that it has not resolved. After a full resolution none remain.
#[derive(Debug)]
pub struct Partial {
    pub handle: Handle,
    pub remaining: Vec<Vec<u8>>,
}

/// The mathematical content of a [`Partial`].
pub struct PartialView {
    pub handle: i32,
    pub remaining: Seq<Seq<u8>>,
}

impl View for Partial {
    type V = PartialView;

    open spec fn view(&self) -> PartialView {
        PartialView { handle: self.handle@, remaining: names_of(self.remaining@) }
    }
}

/// The state of a walk.
pub struct WalkView {
    pub phase: Phase,
    /// The root handle, which the walk borrows.
    pub root: i32,
    pub flags: ResolverFlags,
    /// Whether a symlink at the end of the path is left unfollowed.
    pub nofollow: bool,
    /// Whether the walk stops, instead of failing, at the first component
    /// that cannot be opened.
    pub partial: bool,
    /// Whether the path to resolve was empty.
    pub empty: bool,
    pub root_id: InodeId,
    /// The handle of the directory in which the walk stands.
    pub current: Option<i32>,
    pub current_id: InodeId,
    pub contained: Contained,
    /// The path that the kernel reported for the root in the last
    /// containment check.
    pub root_path: Seq<u8>,
    /// The path that the kernel reported for the current handle in that
    /// check.
    pub current_path: Seq<u8>,
    /// The path that the kernel reported for the root in the containment
    /// check that is under way.
    pub probe_path: Seq<u8>,
    /// The components that are still ahead.
    pub remaining: Seq<Seq<u8>>,
    pub symlinks: StackView,
    /// The component that is being dealt with.
    pub name: Seq<u8>,
    /// Whether that component is `..`.
    pub dotdot: bool,
    /// The handle of what the component led to.
    pub candidate: Option<i32>,
    pub candidate_id: InodeId,
    pub candidate_kind: FileKind,
    /// The ancestor at which the containment check stands.
    pub ancestor: Option<i32>,
    pub ancestor_id: InodeId,
    pub ancestor_depth: usize,
}

/// The error for a reply that does not answer the call that was made.
pub open spec fn unexpected_reply() -> ErrorView {
    ErrorView::invalid("reply"@, "the reply does not answer the call that was made"@)
}

/// The error for a failure of the symlink stack: the budgets are the
/// kernel's `ELOOP`, anything else is a broken stack.
pub open spec fn stack_error(e: SymlinkStackError) -> ErrorView {
    match e {
        SymlinkStackError::TooManyFrames => ErrorView::os("expand nested symlinks"@, ELOOP),
        SymlinkStackError::TooManyBytes => ErrorView::os("expand symlink targets"@, ELOOP),
        _ => ErrorView::bad_stack("symlink stack lost track of the walk"@, e),
    }
}

/// The kind of component that an inode of kind `kind` makes.
pub open spec fn component_kind(kind: FileKind) -> ComponentKind {
    if kind == FileKind::Directory {
        ComponentKind::Directory
    } else {
        ComponentKind::NonDirectory
    }
}

impl WalkView {
    /// The state in which a walk for `path` in `root` begins.
    pub open spec fn start(
        root: i32,
        path: Seq<u8>,
        flags: ResolverFlags,
        nofollow: bool,
        partial: bool,
    ) -> WalkView {
        WalkView {
            phase: Phase::Start,
            root,
            flags,
            nofollow,
            partial,
            empty: path.len() == 0,
            root_id: InodeId { dev: 0, ino: 0 },
            current: None,
            current_id: InodeId { dev: 0, ino: 0 },
            contained: Contained::Unchecked,
            root_path: Seq::empty(),
            current_path: Seq::empty(),
            probe_path: Seq::empty(),
            remaining: split(path),
            symlinks: StackView {
                frames: Seq::empty(),
                max_frames: MAX_SYMLINK_FRAMES,
                max_bytes: MAX_EXPANDED_BYTES,
            },
            name: Seq::empty(),
            dotdot: false,
            candidate: None,
            candidate_id: InodeId { dev: 0, ino: 0 },
            candidate_kind: FileKind::Other,
            ancestor: None,
            ancestor_id: InodeId { dev: 0, ino: 0 },
            ancestor_depth: 0,
        }
    }

    /// The state of a walk that is over: it holds no handle and has nothing
    /// ahead. What it learned in its last containment check stays.
    pub open spec fn settled(self) -> WalkView {
        WalkView {
            phase: Phase::Finished,
            current: None,
            candidate: None,
            ancestor: None,
            remaining: Seq::empty(),
            name: Seq::empty(),
            symlinks: StackView { frames: Seq::empty(), ..self.symlinks },
            ..self
        }
    }

    /// The walk fails: every handle that it holds is released.
    pub open spec fn fail(self, retired: Seq<i32>, error: ErrorView) -> (
        WalkView,
        StepView<PartialView>,
    ) {
        (
            self.settled(),
            StepView::failed(
                retired + held(self.current) + held(self.candidate) + held(self.ancestor),
                error,
            ),
        )
    }

    /// The walk ends with its current handle and with `remaining` as what
    /// it has left unresolved.
    pub open spec fn end(self, retired: Seq<i32>, remaining: Seq<Seq<u8>>) -> (
        WalkView,
        StepView<PartialView>,
    ) {
        match self.current {
            Some(handle) => (
                self.settled(),
                StepView::done(
                    retired + held(self.candidate) + held(self.ancestor),
                    PartialView { handle, remaining },
                ),
            ),
            None => self.fail(
                retired,
                ErrorView::safety("the walk holds no directory"@),
            ),
        }
    }

    /// The walk has nothing ahead: every expansion must be complete.
    pub open spec fn finish(self, retired: Seq<i32>) -> (WalkView, StepView<PartialView>) {
        if self.symlinks.retired().frames.len() > 0 {
            self.fail(
                retired,
                ErrorView::bad_stack(
                    "symlink expansion is incomplete at the end of the path"@,
                    SymlinkStackError::BrokenInvariant,
                ),
            )
        } else {
            self.end(retired, Seq::empty())
        }
    }

    /// The walk asks for `name` to be opened in its current directory.
    pub open spec fn open(self, retired: Seq<i32>, name: Seq<u8>, dotdot: bool) -> (
        WalkView,
        StepView<PartialView>,
    ) {
        match self.current {
            Some(dir) => (
                WalkView { phase: Phase::Open, name, dotdot, ..self },
                StepView::call(
                    retired,
                    SyscallView::OpenAt { dir, name, flags: O_PATH_NOFOLLOW, mode: 0 },
                ),
            ),
            None => self.fail(
                retired,
                ErrorView::safety("the walk holds no directory"@),
            ),
        }
    }

    /// The walk goes on from its current directory: it passes the
    /// components that need no system call, and asks for the first one
    /// that does to be opened. Empty components and `.` are passed; so is a
    /// `..` that the symlink stack suppresses, or that is met at the root.
    pub open spec fn advance(self, retired: Seq<i32>) -> (WalkView, StepView<PartialView>)
        decreases self.remaining.len(),
    {
        if self.remaining.len() == 0 {
            self.finish(retired)
        } else {
            let name = self.remaining[0];
            let rest = self.remaining.skip(1);
            if name.len() == 0 || name == dot() {
                match self.symlinks.consume(ComponentKind::NoOp) {
                    Ok(symlinks) => WalkView { remaining: rest, symlinks, ..self }.advance(
                        retired,
                    ),
                    Err(e) => self.fail(retired, stack_error(e)),
                }
            } else if name == dotdot() {
                match self.symlinks.pop_for_dotdot() {
                    Ok((symlinks, verdict)) => {
                        let next = WalkView { remaining: rest, symlinks, ..self };
                        if verdict is Suppress || self.current_id == self.root_id {
                            next.advance(retired)
                        } else {
                            next.open(retired, name, true)
                        }
                    },
                    Err(e) => self.fail(retired, stack_error(e)),
                }
            } else {
                WalkView { remaining: rest, ..self }.open(retired, name, false)
            }
        }
    }

    /// What was opened has passed the containment check: it becomes the
    /// current handle, and the handle that was current is released.
    pub open spec fn accept(self, contained: Contained, root_path: Seq<u8>, path: Seq<u8>) -> (
        WalkView,
        StepView<PartialView>,
    ) {
        let retired = held(self.current) + held(self.ancestor);
        let next = WalkView {
            current: self.candidate,
            current_id: self.candidate_id,
            root_path,
            current_path: path,
            contained,
            candidate: None,
            ancestor: None,
            ..self
        };
        if self.dotdot {
            next.advance(retired)
        } else {
            match self.symlinks.consume(component_kind(self.candidate_kind)) {
                Ok(symlinks) => WalkView { symlinks, ..next }.advance(retired),
                Err(e) => next.fail(retired, stack_error(e)),
            }
        }
    }

    /// The containment check without paths from the kernel. What is no
    /// directory lies where the directory lies in which it was opened; a
    /// directory lies within the root if it is the root or has it among
    /// its ancestors.
    pub open spec fn fallback(self) -> (WalkView, StepView<PartialView>) {
        if self.candidate_kind != FileKind::Directory {
            self.accept(Contained::ByParent, Seq::empty(), Seq::empty())
        } else if self.candidate_id == self.root_id {
            self.accept(Contained::ByAncestry, Seq::empty(), Seq::empty())
        } else {
            match self.candidate {
                Some(dir) => (
                    WalkView {
                        phase: Phase::AncestorOpen,
                        ancestor_id: self.candidate_id,
                        ancestor_depth: 0,
                        ..self
                    },
                    StepView::call(
                        Seq::empty(),
                        SyscallView::OpenAt {
                            dir,
                            name: dotdot(),
                            flags: O_PATH_NOFOLLOW,
                            mode: 0,
                        },
                    ),
                ),
                None => self.fail(
                    Seq::empty(),
                    ErrorView::safety("the walk holds no component"@),
                ),
            }
        }
    }

    /// The first move.
    pub open spec fn on_start(self, reply: ReplyView) -> (WalkView, StepView<PartialView>) {
        match reply {
            ReplyView::Start => if self.empty {
                self.fail(Seq::empty(), ErrorView::os("resolve an empty path"@, ENOENT))
            } else {
                (
                    WalkView { phase: Phase::RootStat, ..self },
                    StepView::call(Seq::empty(), SyscallView::Fstat { fd: self.root }),
                )
            },
            _ => self.fail(Seq::empty(), unexpected_reply()),
        }
    }

    /// The root was identified: it must be a directory.
    pub open spec fn on_root_stat(self, reply: ReplyView) -> (WalkView, StepView<PartialView>) {
        match reply {
            ReplyView::Stat { mode, dev, ino } => if kind_of_mode(mode) == FileKind::Directory {
                (
                    WalkView { phase: Phase::RootDup, root_id: InodeId { dev, ino }, ..self },
                    StepView::call(Seq::empty(), SyscallView::Dup { fd: self.root }),
                )
            } else {
                self.fail(
                    Seq::empty(),
                    ErrorView::os("resolve in a root that is no directory"@, ENOTDIR),
                )
            },
            ReplyView::Failed(errno) => self.fail(
                Seq::empty(),
                ErrorView::raw_os("stat root handle"@, errno),
            ),
            _ => self.fail(Seq::empty(), unexpected_reply()),
        }
    }

    /// The walk got its duplicate of the root handle and sets out from it.
    pub open spec fn on_root_dup(self, reply: ReplyView) -> (WalkView, StepView<PartialView>) {
        match reply {
            ReplyView::Fd(fd) => WalkView {
                current: Some(fd),
                current_id: self.root_id,
                contained: Contained::Duplicate,
                root_path: Seq::empty(),
                current_path: Seq::empty(),
                ..self
            }.advance(Seq::empty()),
            ReplyView::Failed(errno) => self.fail(
                Seq::empty(),
                ErrorView::raw_os("duplicate root handle"@, errno),
            ),
            _ => self.fail(Seq::empty(), unexpected_reply()),
        }
    }

    /// The component was opened, or could not be. A partial walk stops at
    /// a name that cannot be opened, and has that name and what followed
    /// it left over.
    pub open spec fn on_open(self, reply: ReplyView) -> (WalkView, StepView<PartialView>) {
        match reply {
            ReplyView::Fd(fd) => (
                WalkView { phase: Phase::Stat, candidate: Some(fd), ..self },
                StepView::call(Seq::empty(), SyscallView::Fstat { fd }),
            ),
            ReplyView::Failed(errno) => if self.partial && !self.dotdot {
                self.end(Seq::empty(), seq![self.name] + self.remaining)
            } else {
                self.fail(
                    Seq::empty(),
                    ErrorView::raw_os("open next component of resolution"@, errno),
                )
            },
            _ => self.fail(Seq::empty(), unexpected_reply()),
        }
    }

    /// The component was classified. A directory, and whatever ends the
    /// path, goes to the containment check; a symlink is read, unless
    /// symlinks are refused or it ends the path of a walk that does not
    /// follow there; anything else in the middle of a path is an error.
    pub open spec fn on_stat(self, reply: ReplyView) -> (WalkView, StepView<PartialView>) {
        match reply {
            ReplyView::Stat { mode, dev, ino } => {
                let kind = kind_of_mode(mode);
                let next = WalkView {
                    candidate_id: InodeId { dev, ino },
                    candidate_kind: kind,
                    ..self
                };
                if self.dotdot && kind != FileKind::Directory {
                    next.fail(
                        Seq::empty(),
                        ErrorView::safety("parent of a directory is no directory"@),
                    )
                } else if kind == FileKind::Directory {
                    next.check()
                } else if kind == FileKind::Symlink {
                    if self.flags.refuses_symlinks() {
                        next.fail(
                            Seq::empty(),
                            ErrorView::os("walk a symlink with symlinks refused"@, ELOOP),
                        )
                    } else if self.nofollow && self.remaining.len() == 0 {
                        next.check()
                    } else {
                        match self.candidate {
                            Some(fd) => (
                                WalkView { phase: Phase::Target, ..next },
                                StepView::call(Seq::empty(), SyscallView::ReadLink { fd }),
                            ),
                            None => next.fail(
                                Seq::empty(),
                                ErrorView::safety("the walk holds no component"@),
                            ),
                        }
                    }
                } else if self.remaining.len() > 0 {
                    next.fail(
                        Seq::empty(),
                        ErrorView::os("walk through a component that is no directory"@, ENOTDIR),
                    )
                } else {
                    next.check()
                }
            },
            ReplyView::Failed(errno) => self.fail(
                Seq::empty(),
                ErrorView::raw_os("stat next component of resolution"@, errno),
            ),
            _ => self.fail(Seq::empty(), unexpected_reply()),
        }
    }

    /// The containment check begins: it asks for the path of the root.
    pub open spec fn check(self) -> (WalkView, StepView<PartialView>) {
        (
            WalkView { phase: Phase::RootPath, ..self },
            StepView::call(Seq::empty(), SyscallView::FdPath { fd: self.root }),
        )
    }

    /// The kernel reported the path of the root, or has none to report.
    pub open spec fn on_root_path(self, reply: ReplyView) -> (WalkView, StepView<PartialView>) {
        match reply {
            ReplyView::Bytes(path) => match self.candidate {
                Some(fd) => (
                    WalkView { phase: Phase::CandidatePath, probe_path: path, ..self },
                    StepView::call(Seq::empty(), SyscallView::FdPath { fd }),
                ),
                None => self.fail(
                    Seq::empty(),
                    ErrorView::safety("the walk holds no component"@),
                ),
            },
            ReplyView::Failed(_) => self.fallback(),
            _ => self.fail(Seq::empty(), unexpected_reply()),
        }
    }

    /// The kernel reported the path of what was opened: it must lie within
    /// the path of the root.
    pub open spec fn on_candidate_path(self, reply: ReplyView) -> (
        WalkView,
        StepView<PartialView>,
    ) {
        match reply {
            ReplyView::Bytes(path) => if within(self.probe_path, path) {
                self.accept(Contained::ByPath, self.probe_path, path)
            } else {
                self.fail(
                    Seq::empty(),
                    ErrorView::safety("resolved component is outside of the root"@),
                )
            },
            ReplyView::Failed(_) => self.fallback(),
            _ => self.fail(Seq::empty(), unexpected_reply()),
        }
    }

    /// The next ancestor was opened: the one before it is released.
    pub open spec fn on_ancestor_open(self, reply: ReplyView) -> (
        WalkView,
        StepView<PartialView>,
    ) {
        match reply {
            ReplyView::Fd(fd) => (
                WalkView { phase: Phase::AncestorStat, ancestor: Some(fd), ..self },
                StepView::call(held(self.ancestor), SyscallView::Fstat { fd }),
            ),
            ReplyView::Failed(errno) => self.fail(
                Seq::empty(),
                ErrorView::raw_os("open ancestor in containment check"@, errno),
            ),
            _ => self.fail(Seq::empty(), unexpected_reply()),
        }
    }

    /// An ancestor was identified. The root ends the check well; a
    /// directory that is its own parent, or too long a way up, ends it
    /// badly.
    pub open spec fn on_ancestor_stat(self, reply: ReplyView) -> (
        WalkView,
        StepView<PartialView>,
    ) {
        match reply {
            ReplyView::Stat { mode, dev, ino } => {
                let id = InodeId { dev, ino };
                if id == self.root_id {
                    self.accept(Contained::ByAncestry, Seq::empty(), Seq::empty())
                } else if id == self.ancestor_id || self.ancestor_depth >= MAX_ANCESTORS {
                    self.fail(
                        Seq::empty(),
                        ErrorView::safety("resolved component is outside of the root"@),
                    )
                } else {
                    match self.ancestor {
                        Some(dir) => (
                            WalkView {
                                phase: Phase::AncestorOpen,
                                ancestor_id: id,
                                ancestor_depth: (self.ancestor_depth + 1) as usize,
                                ..self
                            },
                            StepView::call(
                                Seq::empty(),
                                SyscallView::OpenAt {
                                    dir,
                                    name: dotdot(),
                                    flags: O_PATH_NOFOLLOW,
                                    mode: 0,
                                },
                            ),
                        ),
                        None => self.fail(
                            Seq::empty(),
                            ErrorView::safety("the walk holds no component"@),
                        ),
                    }
                }
            },
            ReplyView::Failed(errno) => self.fail(
                Seq::empty(),
                ErrorView::raw_os("stat ancestor in containment check"@, errno),
            ),
            _ => self.fail(Seq::empty(), unexpected_reply()),
        }
    }

    /// The target of a symlink was read. The symlink's handle is released,
    /// a frame is pushed, and the components of the target take the place
    /// of the symlink's name in the path. After an absolute target the walk
    /// goes on from a fresh duplicate of the root handle.
    pub open spec fn on_target(self, reply: ReplyView) -> (WalkView, StepView<PartialView>) {
        match reply {
            ReplyView::Bytes(target) => {
                if target.len() == 0 {
                    self.fail(
                        Seq::empty(),
                        ErrorView::os("follow a symlink with an empty target"@, ENOENT),
                    )
                } else if target.len() > usize::MAX || split(target).len() > usize::MAX {
                    self.fail(
                        Seq::empty(),
                        stack_error(SymlinkStackError::CounterOverflow),
                    )
                } else {
                    match self.symlinks.push(
                        self.current_id,
                        self.name,
                        split(target).len() as usize,
                        target.len() as usize,
                    ) {
                        Err(e) => self.fail(Seq::empty(), stack_error(e)),
                        Ok(symlinks) => {
                            let next = WalkView {
                                remaining: split(target) + self.remaining,
                                symlinks,
                                candidate: None,
                                ..self
                            };
                            if absolute(target) {
                                (
                                    WalkView { phase: Phase::Reset, current: None, ..next },
                                    StepView::call(
                                        held(self.candidate) + held(self.current),
                                        SyscallView::Dup { fd: self.root },
                                    ),
                                )
                            } else {
                                next.advance(held(self.candidate))
                            }
                        },
                    }
                }
            },
            ReplyView::Failed(errno) => self.fail(
                Seq::empty(),
                ErrorView::raw_os("read target of symlink component"@, errno),
            ),
            _ => self.fail(Seq::empty(), unexpected_reply()),
        }
    }

    /// The move that a walk makes on a reply.
    #[verifier::opaque]
    pub open spec fn step(self, reply: ReplyView) -> (WalkView, StepView<PartialView>) {
        match self.phase {
            Phase::Start => self.on_start(reply),
            Phase::RootStat => self.on_root_stat(reply),
            Phase::RootDup => self.on_root_dup(reply),
            Phase::Reset => self.on_root_dup(reply),
            Phase::Open => self.on_open(reply),
            Phase::Stat => self.on_stat(reply),
            Phase::Target => self.on_target(reply),
            Phase::RootPath => self.on_root_path(reply),
            Phase::CandidatePath => self.on_candidate_path(reply),
            Phase::AncestorOpen => self.on_ancestor_open(reply),
            Phase::AncestorStat => self.on_ancestor_stat(reply),
            Phase::Finished => (
                self,
                StepView::failed(
                    Seq::empty(),
                    ErrorView::invalid("reply"@, "the operation is over"@),
                ),
            ),
        }
    }
}

/// The names of a vector followed by those of another.
pub proof fn names_of_concat(front: Seq<Vec<u8>>, back: Seq<Vec<u8>>)
    ensures
        names_of(front + back) == names_of(front) + names_of(back),
{
    assert(names_of(front + back) =~= names_of(front) + names_of(back));
}

/// A walk of the emulated resolver.
#[derive(Debug)]
pub struct Walk {
    phase: Phase,
    root: i32,
    flags: ResolverFlags,
    nofollow: bool,
    partial: bool,
    empty: bool,
    root_id: InodeId,
    current: Option<i32>,
    current_id: InodeId,
    contained: Contained,
    root_path: Vec<u8>,
    current_path: Vec<u8>,
    probe_path: Vec<u8>,
    remaining: Vec<Vec<u8>>,
    symlinks: SymlinkStack,
    name: Vec<u8>,
    dotdot: bool,
    candidate: Option<i32>,
    candidate_id: InodeId,
    candidate_kind: FileKind,
    ancestor: Option<i32>,
    ancestor_id: InodeId,
    ancestor_depth: usize,
}

impl View for Walk {
    type V = WalkView;

    closed spec fn view(&self) -> WalkView {
        WalkView {
            phase: self.phase,
            root: self.root,
            flags: self.flags,
            nofollow: self.nofollow,
            partial: self.partial,
            empty: self.empty,
            root_id: self.root_id,
            current: self.current,
            current_id: self.current_id,
            contained: self.contained,
            root_path: self.root_path@,
            current_path: self.current_path@,
            probe_path: self.probe_path@,
            remaining: names_of(self.remaining@),
            symlinks: self.symlinks@,
            name: self.name@,
            dotdot: self.dotdot,
            candidate: self.candidate,
            candidate_id: self.candidate_id,
            candidate_kind: self.candidate_kind,
            ancestor: self.ancestor,
            ancestor_id: self.ancestor_id,
            ancestor_depth: self.ancestor_depth,
        }
    }
}

/// Whether a kind is that of a directory.
fn is_directory(kind: FileKind) -> (yes: bool)
    ensures
        yes == (kind == FileKind::Directory),
{
    match kind {
        FileKind::Directory => true,
        _ => false,
    }
}

/// Whether a kind is that of a symlink.
fn is_symlink(kind: FileKind) -> (yes: bool)
    ensures
        yes == (kind == FileKind::Symlink),
{
    match kind {
        FileKind::Symlink => true,
        _ => false,
    }
}

/// The error for a reply that does not answer the call that was made.
pub fn unexpected() -> (error: Error)
    ensures
        error@ == unexpected_reply(),
{
    Error::invalid_argument("reply", "the reply does not answer the call that was made")
}

/// The error for a failure of the symlink stack.
fn stack_failure(e: SymlinkStackError) -> (error: Error)
    ensures
        error@ == stack_error(e),
{
    match e {
        SymlinkStackError::TooManyFrames => Error::os_error("expand nested symlinks", eloop()),
        SymlinkStackError::TooManyBytes => Error::os_error("expand symlink targets", eloop()),
        _ => Error::bad_symlink_stack("symlink stack lost track of the walk", e),
    }
}

/// The component `..`.
fn dotdot_name() -> (name: Vec<u8>)
    ensures
        name@ == dotdot(),
{
    let mut name: Vec<u8> = Vec::new();
    name.push(PERIOD);
    name.push(PERIOD);
    assert(name@ =~= dotdot());
    name
}

impl Walk {
    /// Whether the walk is in order.
    pub closed spec fn wf(&self) -> bool {
        self.symlinks.wf()
    }

    /// A walk that resolves `path` in the directory that `root` refers to.
    /// With `nofollow` a symlink at the very end of the path is not
    /// followed; with `partial` the walk stops at the first component that
    /// cannot be opened and reports what is left.
    pub fn new(root: i32, path: &[u8], flags: ResolverFlags, nofollow: bool, partial: bool) -> (walk:
        Walk)
        ensures
            walk.wf(),
            walk@ == WalkView::start(root, path@, flags, nofollow, partial),
    {
        let remaining = raw_components(path);
        let symlinks = SymlinkStack::new();
        Walk {
            phase: Phase::Start,
            root,
            flags,
            nofollow,
            partial,
            empty: path.len() == 0,
            root_id: InodeId { dev: 0, ino: 0 },
            current: None,
            current_id: InodeId { dev: 0, ino: 0 },
            contained: Contained::Unchecked,
            root_path: Vec::new(),
            current_path: Vec::new(),
            probe_path: Vec::new(),
            remaining,
            symlinks,
            name: Vec::new(),
            dotdot: false,
            candidate: None,
            candidate_id: InodeId { dev: 0, ino: 0 },
            candidate_kind: FileKind::Other,
            ancestor: None,
            ancestor_id: InodeId { dev: 0, ino: 0 },
            ancestor_depth: 0,
        }
    }

    /// Whether the walk is over.
    pub fn is_finished(&self) -> (over: bool)
        ensures
            over == (self@.phase == Phase::Finished),
    {
        match self.phase {
            Phase::Finished => true,
            _ => false,
        }
    }

    fn settle(&mut self)
        ensures
            final(self).wf(),
            final(self)@ == old(self)@.settled(),
    {
        self.phase = Phase::Finished;
        self.current = None;
        self.candidate = None;
        self.ancestor = None;
        self.remaining = Vec::new();
        self.name = Vec::new();
        self.symlinks.reset();
        assert(names_of(self.remaining@) =~= Seq::empty());
    }

    fn fail(&mut self, retired: Vec<i32>, error: Error) -> (step: Step<Partial>)
        ensures
            final(self).wf(),
            (final(self)@, step@) == old(self)@.fail(retired@, error@),
    {
        let mut retired = retired;
        release(&mut retired, self.current);
        release(&mut retired, self.candidate);
        release(&mut retired, self.ancestor);
        self.settle();
        Step { retired, next: Next::Done(Err(error)) }
    }

    fn end(&mut self, retired: Vec<i32>, remaining: Vec<Vec<u8>>) -> (step: Step<Partial>)
        ensures
            final(self).wf(),
            (final(self)@, step@) == old(self)@.end(retired@, names_of(remaining@)),
    {
        match self.current {
            Some(handle) => {
                let mut retired = retired;
                release(&mut retired, self.candidate);
                release(&mut retired, self.ancestor);
                self.settle();
                Step {
                    retired,
                    next: Next::Done(Ok(Partial { handle: Handle::from_fd(handle), remaining })),
                }
            },
            None => self.fail(retired, Error::safety_violation("the walk holds no directory")),
        }
    }

    fn finish(&mut self, retired: Vec<i32>) -> (step: Step<Partial>)
        requires
            old(self).wf(),
        ensures
            final(self).wf(),
            (final(self)@, step@) == old(self)@.finish(retired@),
    {
        let ghost before = self@;
        self.symlinks.retire();
        assert(self@.settled() == before.settled());
        if self.symlinks.is_empty() {
            let step = self.end(retired, Vec::new());
            assert(names_of(Seq::<Vec<u8>>::empty()) =~= Seq::<Seq<u8>>::empty());
            step
        } else {
            self.fail(
                retired,
                Error::bad_symlink_stack(
                    "symlink expansion is incomplete at the end of the path",
                    SymlinkStackError::BrokenInvariant,
                ),
            )
        }
    }

    fn open(&mut self, retired: Vec<i32>, name: Vec<u8>, dotdot: bool) -> (step: Step<Partial>)
        requires
            old(self).wf(),
        ensures
            final(self).wf(),
            (final(self)@, step@) == old(self)@.open(retired@, name@, dotdot),
    {
        match self.current {
            Some(dir) => {
                self.phase = Phase::Open;
                self.dotdot = dotdot;
                let asked = copy_bytes(name.as_slice());
                self.name = name;
                Step {
                    retired,
                    next: Next::Call(
                        Syscall::OpenAt { dir, name: asked, flags: o_path_nofollow(), mode: 0 },
                    ),
                }
            },
            None => self.fail(retired, Error::safety_violation("the walk holds no directory")),
        }
    }

    fn advance(&mut self, retired: Vec<i32>) -> (step: Step<Partial>)
        requires
            old(self).wf(),
        ensures
            final(self).wf(),
            (final(self)@, step@) == old(self)@.advance(retired@),
    {
        loop
            invariant
                self.wf(),
                self@.advance(retired@) == old(self)@.advance(retired@),
            decreases self.remaining.len(),
        {
            if self.remaining.len() == 0 {
                return self.finish(retired);
            }
            let ghost before = self@;
            let name = self.remaining.remove(0);
            assert(names_of(self.remaining@) =~= before.remaining.skip(1));
            assert(name@ == before.remaining[0]);
            if name.len() == 0 || is_dot(name.as_slice()) {
                assert(name@.len() == 0 || name@ == dot());
                match self.symlinks.consume_component(ComponentKind::NoOp) {
                    Ok(()) => {},
                    Err(e) => {
                        assert(self@.settled() == before.settled());
                        assert(held(self@.current) == held(before.current));
                        return self.fail(retired, stack_failure(e));
                    },
                }
            } else if is_dotdot(name.as_slice()) {
                assert(dotdot() != dot()) by {
                    assert(dotdot().len() == 2);
                    assert(dot().len() == 1);
                }
                match self.symlinks.pop_for_dotdot() {
                    Ok(verdict) => {
                        let stay = match verdict {
                            DotDot::Suppress => true,
                            DotDot::Physical => self.current_id.same(&self.root_id),
                        };
                        if !stay {
                            return self.open(retired, name, true);
                        }
                    },
                    Err(e) => {
                        assert(self@.settled() == before.settled());
                        return self.fail(retired, stack_failure(e));
                    },
                }
            } else {
                assert(name@ != dot() && name@ != dotdot() && name@.len() != 0);
                return self.open(retired, name, false);
            }
        }
    }

    fn accept(&mut self, contained: Contained, root_path: Vec<u8>, path: Vec<u8>) -> (step: Step<
        Partial,
    >)
        requires
            old(self).wf(),
        ensures
            final(self).wf(),
            (final(self)@, step@) == old(self)@.accept(contained, root_path@, path@),
    {
        let ghost before = self@;
        let mut retired: Vec<i32> = Vec::new();
        release(&mut retired, self.current);
        release(&mut retired, self.ancestor);
        assert(retired@ =~= held(before.current) + held(before.ancestor));
        self.current = self.candidate;
        self.current_id = self.candidate_id;
        self.root_path = root_path;
        self.current_path = path;
        self.contained = contained;
        self.candidate = None;
        self.ancestor = None;
        if self.dotdot {
            self.advance(retired)
        } else {
            let ghost next = self@;
            let kind = if is_directory(self.candidate_kind) {
                ComponentKind::Directory
            } else {
                ComponentKind::NonDirectory
            };
            match self.symlinks.consume_component(kind) {
                Ok(()) => self.advance(retired),
                Err(e) => {
                    assert(self@.settled() == next.settled());
                    self.fail(retired, stack_failure(e))
                },
            }
        }
    }

    fn fallback(&mut self) -> (step: Step<Partial>)
        requires
            old(self).wf(),
        ensures
            final(self).wf(),
            (final(self)@, step@) == old(self)@.fallback(),
    {
        if !is_directory(self.candidate_kind) {
            self.accept(Contained::ByParent, Vec::new(), Vec::new())
        } else if self.candidate_id.same(&self.root_id) {
            self.accept(Contained::ByAncestry, Vec::new(), Vec::new())
        } else {
            match self.candidate {
                Some(dir) => {
                    self.phase = Phase::AncestorOpen;
                    self.ancestor_id = self.candidate_id;
                    self.ancestor_depth = 0;
                    Step {
                        retired: Vec::new(),
                        next: Next::Call(
                            Syscall::OpenAt {
                                dir,
                                name: dotdot_name(),
                                flags: o_path_nofollow(),
                                mode: 0,
                            },
                        ),
                    }
                },
                None => self.fail(
                    Vec::new(),
                    Error::safety_violation("the walk holds no component"),
                ),
            }
        }
    }

    fn check(&mut self) -> (step: Step<Partial>)
        requires
            old(self).wf(),
        ensures
            final(self).wf(),
            (final(self)@, step@) == old(self)@.check(),
    {
        self.phase = Phase::RootPath;
        Step { retired: Vec::new(), next: Next::Call(Syscall::FdPath { fd: self.root }) }
    }

    fn on_start(&mut self, reply: Reply) -> (step: Step<Partial>)
        requires
            old(self).wf(),
        ensures
            final(self).wf(),
            (final(self)@, step@) == old(self)@.on_start(reply@),
    {
        match reply {
            Reply::Start => {
                if self.empty {
                    self.fail(Vec::new(), Error::os_error("resolve an empty path", enoent()))
                } else {
                    self.phase = Phase::RootStat;
                    Step { retired: Vec::new(), next: Next::Call(Syscall::Fstat { fd: self.root }) }
                }
            },
            _ => self.fail(Vec::new(), unexpected()),
        }
    }

    fn on_root_stat(&mut self, reply: Reply) -> (step: Step<Partial>)
        requires
            old(self).wf(),
        ensures
            final(self).wf(),
            (final(self)@, step@) == old(self)@.on_root_stat(reply@),
    {
        match reply {
            Reply::Stat { mode, dev, ino } => {
                if is_directory(FileKind::from_mode(mode)) {
                    self.phase = Phase::RootDup;
                    self.root_id = InodeId { dev, ino };
                    Step { retired: Vec::new(), next: Next::Call(Syscall::Dup { fd: self.root }) }
                } else {
                    self.fail(
                        Vec::new(),
                        Error::os_error("resolve in a root that is no directory", enotdir()),
                    )
                }
            },
            Reply::Failed(errno) => self.fail(
                Vec::new(),
                Error::raw_os_error("stat root handle", errno),
            ),
            _ => self.fail(Vec::new(), unexpected()),
        }
    }

    fn on_root_dup(&mut self, reply: Reply) -> (step: Step<Partial>)
        requires
            old(self).wf(),
        ensures
            final(self).wf(),
            (final(self)@, step@) == old(self)@.on_root_dup(reply@),
    {
        match reply {
            Reply::Fd(fd) => {
                self.current = Some(fd);
                self.current_id = self.root_id;
                self.contained = Contained::Duplicate;
                self.root_path = Vec::new();
                self.current_path = Vec::new();
                self.advance(Vec::new())
            },
            Reply::Failed(errno) => self.fail(
                Vec::new(),
                Error::raw_os_error("duplicate root handle", errno),
            ),
            _ => self.fail(Vec::new(), unexpected()),
        }
    }

    fn on_open(&mut self, reply: Reply) -> (step: Step<Partial>)
        requires
            old(self).wf(),
        ensures
            final(self).wf(),
            (final(self)@, step@) == old(self)@.on_open(reply@),
    {
        match reply {
            Reply::Fd(fd) => {
                self.phase = Phase::Stat;
                self.candidate = Some(fd);
                Step { retired: Vec::new(), next: Next::Call(Syscall::Fstat { fd }) }
            },
            Reply::Failed(errno) => {
                if self.partial && !self.dotdot {
                    let ghost before = self@;
                    let mut left: Vec<Vec<u8>> = Vec::new();
                    left.push(copy_bytes(self.name.as_slice()));
                    let ghost first = left@;
                    let ghost rest = self.remaining@;
                    left.append(&mut self.remaining);
                    proof {
                        names_of_concat(first, rest);
                        assert(names_of(first) =~= seq![before.name]);
                    }
                    assert(self@.settled() == before.settled());
                    self.end(Vec::new(), left)
                } else {
                    self.fail(
                        Vec::new(),
                        Error::raw_os_error("open next component of resolution", errno),
                    )
                }
            },
            _ => self.fail(Vec::new(), unexpected()),
        }
    }

    fn on_stat(&mut self, reply: Reply) -> (step: Step<Partial>)
        requires
            old(self).wf(),
        ensures
            final(self).wf(),
            (final(self)@, step@) == old(self)@.on_stat(reply@),
    {
        match reply {
            Reply::Stat { mode, dev, ino } => {
                let kind = FileKind::from_mode(mode);
                self.candidate_id = InodeId { dev, ino };
                self.candidate_kind = kind;
                if self.dotdot && !is_directory(kind) {
                    self.fail(
                        Vec::new(),
                        Error::safety_violation("parent of a directory is no directory"),
                    )
                } else if is_directory(kind) {
                    self.check()
                } else if is_symlink(kind) {
                    if self.flags.forbids_symlinks() {
                        self.fail(
                            Vec::new(),
                            Error::os_error("walk a symlink with symlinks refused", eloop()),
                        )
                    } else if self.nofollow && self.remaining.len() == 0 {
                        self.check()
                    } else {
                        match self.candidate {
                            Some(fd) => {
                                self.phase = Phase::Target;
                                Step {
                                    retired: Vec::new(),
                                    next: Next::Call(Syscall::ReadLink { fd }),
                                }
                            },
                            None => self.fail(
                                Vec::new(),
                                Error::safety_violation("the walk holds no component"),
                            ),
                        }
                    }
                } else if self.remaining.len() > 0 {
                    self.fail(
                        Vec::new(),
                        Error::os_error("walk through a component that is no directory", enotdir()),
                    )
                } else {
                    self.check()
                }
            },
            Reply::Failed(errno) => self.fail(
                Vec::new(),
                Error::raw_os_error("stat next component of resolution", errno),
            ),
            _ => self.fail(Vec::new(), unexpected()),
        }
    }

    fn on_root_path(&mut self, reply: Reply) -> (step: Step<Partial>)
        requires
            old(self).wf(),
        ensures
            final(self).wf(),
            (final(self)@, step@) == old(self)@.on_root_path(reply@),
    {
        match reply {
            Reply::Bytes(path) => match self.candidate {
                Some(fd) => {
                    self.phase = Phase::CandidatePath;
                    self.probe_path = path;
                    Step { retired: Vec::new(), next: Next::Call(Syscall::FdPath { fd }) }
                },
                None => self.fail(
                    Vec::new(),
                    Error::safety_violation("the walk holds no component"),
                ),
            },
            Reply::Failed(_) => self.fallback(),
            _ => self.fail(Vec::new(), unexpected()),
        }
    }

    fn on_candidate_path(&mut self, reply: Reply) -> (step: Step<Partial>)
        requires
            old(self).wf(),
        ensures
            final(self).wf(),
            (final(self)@, step@) == old(self)@.on_candidate_path(reply@),
    {
        match reply {
            Reply::Bytes(path) => {
                if is_within(self.probe_path.as_slice(), path.as_slice()) {
                    let root_path = copy_bytes(self.probe_path.as_slice());
                    self.accept(Contained::ByPath, root_path, path)
                } else {
                    self.fail(
                        Vec::new(),
                        Error::safety_violation("resolved component is outside of the root"),
                    )
                }
            },
            Reply::Failed(_) => self.fallback(),
            _ => self.fail(Vec::new(), unexpected()),
        }
    }

    fn on_ancestor_open(&mut self, reply: Reply) -> (step: Step<Partial>)
        requires
            old(self).wf(),
        ensures
            final(self).wf(),
            (final(self)@, step@) == old(self)@.on_ancestor_open(reply@),
    {
        match reply {
            Reply::Fd(fd) => {
                let mut retired: Vec<i32> = Vec::new();
                release(&mut retired, self.ancestor);
                assert(retired@ =~= held(self.ancestor));
                self.phase = Phase::AncestorStat;
                self.ancestor = Some(fd);
                Step { retired, next: Next::Call(Syscall::Fstat { fd }) }
            },
            Reply::Failed(errno) => self.fail(
                Vec::new(),
                Error::raw_os_error("open ancestor in containment check", errno),
            ),
            _ => self.fail(Vec::new(), unexpected()),
        }
    }

    fn on_ancestor_stat(&mut self, reply: Reply) -> (step: Step<Partial>)
        requires
            old(self).wf(),
        ensures
            final(self).wf(),
            (final(self)@, step@) == old(self)@.on_ancestor_stat(reply@),
    {
        match reply {
            Reply::Stat { mode, dev, ino } => {
                let id = InodeId { dev, ino };
                if id.same(&self.root_id) {
                    self.accept(Contained::ByAncestry, Vec::new(), Vec::new())
                } else if id.same(&self.ancestor_id) || self.ancestor_depth >= MAX_ANCESTORS {
                    self.fail(
                        Vec::new(),
                        Error::safety_violation("resolved component is outside of the root"),
                    )
                } else {
                    match self.ancestor {
                        Some(dir) => {
                            self.phase = Phase::AncestorOpen;
                            self.ancestor_id = id;
                            self.ancestor_depth = self.ancestor_depth + 1;
                            Step {
                                retired: Vec::new(),
                                next: Next::Call(
                                    Syscall::OpenAt {
                                        dir,
                                        name: dotdot_name(),
                                        flags: o_path_nofollow(),
                                        mode: 0,
                                    },
                                ),
                            }
                        },
                        None => self.fail(
                            Vec::new(),
                            Error::safety_violation("the walk holds no component"),
                        ),
                    }
                }
            },
            Reply::Failed(errno) => self.fail(
                Vec::new(),
                Error::raw_os_error("stat ancestor in containment check", errno),
            ),
            _ => self.fail(Vec::new(), unexpected()),
        }
    }

    fn on_target(&mut self, reply: Reply) -> (step: Step<Partial>)
        requires
            old(self).wf(),
        ensures
            final(self).wf(),
            (final(self)@, step@) == old(self)@.on_target(reply@),
    {
        match reply {
            Reply::Bytes(target) => {
                if target.len() == 0 {
                    return self.fail(
                        Vec::new(),
                        Error::os_error("follow a symlink with an empty target", enoent()),
                    );
                }
                let ghost before = self@;
                let mut components = raw_components(target.as_slice());
                match self.symlinks.push(
                    self.current_id,
                    self.name.as_slice(),
                    components.len(),
                    target.len(),
                ) {
                    Err(e) => {
                        assert(self@.settled() == before.settled());
                        self.fail(Vec::new(), stack_failure(e))
                    },
                    Ok(()) => {
                        let ghost front = components@;
                        let ghost back = self.remaining@;
                        components.append(&mut self.remaining);
                        self.remaining = components;
                        proof {
                            names_of_concat(front, back);
                        }
                        let mut retired: Vec<i32> = Vec::new();
                        release(&mut retired, self.candidate);
                        self.candidate = None;
                        if is_absolute(target.as_slice()) {
                            release(&mut retired, self.current);
                            assert(retired@ =~= held(before.candidate) + held(before.current));
                            self.current = None;
                            self.phase = Phase::Reset;
                            Step { retired, next: Next::Call(Syscall::Dup { fd: self.root }) }
                        } else {
                            assert(retired@ =~= held(before.candidate));
                            self.advance(retired)
                        }
                    },
                }
            },
            Reply::Failed(errno) => self.fail(
                Vec::new(),
                Error::raw_os_error("read target of symlink component", errno),
            ),
            _ => self.fail(Vec::new(), unexpected()),
        }
    }

    /// Makes the next move of the walk, on the outcome of the call that it
    /// asked for last.
    pub fn step(&mut self, reply: Reply) -> (step: Step<Partial>)
        requires
            old(self).wf(),
        ensures
            final(self).wf(),
            (final(self)@, step@) == old(self)@.step(reply@),
    {
        proof {
            reveal(WalkView::step);
        }
        match self.phase {
            Phase::Start => self.on_start(reply),
            Phase::RootStat => self.on_root_stat(reply),
            Phase::RootDup => self.on_root_dup(reply),
            Phase::Reset => self.on_root_dup(reply),
            Phase::Open => self.on_open(reply),
            Phase::Stat => self.on_stat(reply),
            Phase::Target => self.on_target(reply),
            Phase::RootPath => self.on_root_path(reply),
            Phase::CandidatePath => self.on_candidate_path(reply),
            Phase::AncestorOpen => self.on_ancestor_open(reply),
            Phase::AncestorStat => self.on_ancestor_stat(reply),
            Phase::Finished => Step {
                retired: Vec::new(),
                next: Next::Done(Err(Error::invalid_argument("reply", "the operation is over"))),
            },
        }
    }
}

} // verus!
